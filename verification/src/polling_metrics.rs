//! The metric that tells when GitHub was last polled with success.
use crate::{numeral, text};
use vstd::prelude::*;

verus! {

pub const METRIC_NAME: &'static str = "maid_last_successful_poll_timestamp_seconds";

/// The time of the last successful poll, in seconds since the epoch; zero before
/// the first. There is one such value, which whoever polls and whoever answers
/// share; it cannot be copied.
#[derive(Debug, Eq, PartialEq)]
pub struct PollingMetrics {
    pub last_successful_poll: u64,
}

/// What Prometheus reads: the metric's description, and its sample once there is
/// one.
pub open spec fn rendered_metrics(timestamp: u64) -> Seq<char> {
    let head = "# HELP "@ + METRIC_NAME@
        + " Unix timestamp of Maid's last successful GitHub poll.\n# TYPE "@ + METRIC_NAME@
        + " gauge\n"@;
    if timestamp == 0 {
        head
    } else {
        head + (METRIC_NAME@ + " "@ + numeral::decimal(timestamp as nat) + "\n"@)
    }
}

impl PollingMetrics {
    pub fn new() -> (r: PollingMetrics)
        ensures
            r.last_successful_poll == 0,
    {
        PollingMetrics { last_successful_poll: 0 }
    }

    /// Takes note of a successful poll at `timestamp`.
    pub fn record_success(&mut self, timestamp: u64)
        ensures
            final(self).last_successful_poll == timestamp,
    {
        self.last_successful_poll = timestamp;
    }

    pub fn render(&self) -> (r: String)
        ensures
            r@ == rendered_metrics(self.last_successful_poll),
    {
        let mut body: String = text::cat5(
            "# HELP ",
            METRIC_NAME,
            " Unix timestamp of Maid's last successful GitHub poll.\n# TYPE ",
            METRIC_NAME,
            " gauge\n",
        );
        if self.last_successful_poll != 0 {
            let sample = text::cat4(
                METRIC_NAME,
                " ",
                numeral::to_decimal(self.last_successful_poll).as_str(),
                "\n",
            );
            body.append(sample.as_str());
        }
        body
    }
}

/// A line that holds a sample of the metric.
pub open spec fn is_sample(line: Seq<char>) -> bool {
    text::has_prefix(line, METRIC_NAME@)
}

/// The lines before the sample.
pub open spec fn description_lines() -> Seq<Seq<char>> {
    seq![
        "# HELP "@ + METRIC_NAME@ + " Unix timestamp of Maid's last successful GitHub poll."@,
        "# TYPE "@ + METRIC_NAME@ + " gauge"@,
    ]
}

/// Before the first success there is no sample; after one there is exactly one,
/// and it gives the time that was recorded last.
pub proof fn law_one_sample_once_there_was_a_success(timestamp: u64)
    ensures
        ({
            let lines = text::pieces(rendered_metrics(timestamp), '\n');
            let sample = METRIC_NAME@ + " "@ + numeral::decimal(timestamp as nat);
            &&& lines == (if timestamp == 0 {
                description_lines() + seq![Seq::<char>::empty()]
            } else {
                description_lines() + seq![sample, Seq::<char>::empty()]
            })
            &&& timestamp == 0 ==> forall|i: int|
                0 <= i < lines.len() ==> !is_sample(#[trigger] lines[i])
            &&& timestamp != 0 ==> forall|i: int|
                0 <= i < lines.len() ==> is_sample(#[trigger] lines[i]) == (lines[i] == sample && i
                    == 2)
        }),
{
    reveal_strlit("maid_last_successful_poll_timestamp_seconds");
    reveal_strlit("# HELP ");
    reveal_strlit(" Unix timestamp of Maid's last successful GitHub poll.\n# TYPE ");
    reveal_strlit(" Unix timestamp of Maid's last successful GitHub poll.");
    reveal_strlit("# TYPE ");
    reveal_strlit(" gauge\n");
    reveal_strlit(" gauge");
    reveal_strlit(" ");
    reveal_strlit("\n");
    let help = description_lines()[0];
    let kind = description_lines()[1];
    let digits = numeral::decimal(timestamp as nat);
    let sample = METRIC_NAME@ + " "@ + digits;
    let end = Seq::<char>::empty();
    let feed = seq!['\n'];
    numeral::lemma_decimal_digits(timestamp as nat);
    assert(!help.contains('\n'));
    assert(!kind.contains('\n'));
    assert(!sample.contains('\n')) by {
        if sample.contains('\n') {
            let k = choose|k: int| 0 <= k < sample.len() && sample[k] == '\n';
            let head = METRIC_NAME@.len() + 1;
            if k >= head {
                assert(text::is_ascii_digit(digits[k - head]));
            }
        }
    }
    assert(help[0] == '#' && kind[0] == '#' && METRIC_NAME@[0] == 'm');
    assert(!is_sample(help)) by {
        assert(help.take(METRIC_NAME@.len() as int)[0] == '#');
    }
    assert(!is_sample(kind)) by {
        assert(kind.take(METRIC_NAME@.len() as int)[0] == '#');
    }
    assert(sample.take(METRIC_NAME@.len() as int) =~= METRIC_NAME@);
    text::lemma_pieces_single(end, '\n');
    if timestamp == 0 {
        text::lemma_pieces_prepend(kind, end, '\n');
        text::lemma_pieces_prepend(help, kind + feed + end, '\n');
        assert(rendered_metrics(timestamp) =~= help + feed + (kind + feed + end));
        assert(text::pieces(rendered_metrics(timestamp), '\n') =~= description_lines() + seq![end]);
    } else {
        text::lemma_pieces_prepend(sample, end, '\n');
        text::lemma_pieces_prepend(kind, sample + feed + end, '\n');
        text::lemma_pieces_prepend(help, kind + feed + (sample + feed + end), '\n');
        assert(rendered_metrics(timestamp) =~= help + feed + (kind + feed + (sample + feed + end)));
        assert(text::pieces(rendered_metrics(timestamp), '\n') =~= description_lines() + seq![
            sample,
            end,
        ]);
    }
}

/// The bytes of `GET /metrics `.
pub open spec fn metrics_request_start() -> Seq<u8> {
    seq![71u8, 69, 84, 32, 47, 109, 101, 116, 114, 105, 99, 115, 32]
}

/// Whether a request asks for the metrics.
pub fn is_metrics_request(request: &Vec<u8>) -> (r: bool)
    ensures
        r == (request@.len() >= 13 && request@.take(13) == metrics_request_start()),
{
    let start: Vec<u8> = vec![71, 69, 84, 32, 47, 109, 101, 116, 114, 105, 99, 115, 32];
    assert(start@ =~= metrics_request_start());
    if request.len() < 13 {
        return false;
    }
    let mut i: usize = 0;
    while i < 13
        invariant
            i <= 13,
            start@ == metrics_request_start(),
            request@.len() >= 13,
            forall|k: int| 0 <= k < i ==> request@[k] == start@[k],
        decreases 13 - i,
    {
        if request[i] != start[i] {
            assert(request@.take(13)[i as int] != start@[i as int]);
            return false;
        }
        i = i + 1;
    }
    assert(request@.take(13) =~= start@);
    true
}

/// An answer with a status and a plain text body, whose length is given in bytes.
pub open spec fn http_response(status: Seq<char>, body: Seq<char>) -> Seq<char> {
    "HTTP/1.1 "@ + status
        + "\r\nContent-Type: text/plain; version=0.0.4; charset=utf-8\r\nContent-Length: "@
        + numeral::decimal(vstd::utf8::encode_utf8(body).len())
        + "\r\nConnection: close\r\n\r\n"@ + body
}

/// The answer to a request: the metrics, or that nothing else is to be had.
pub fn respond(request: &Vec<u8>, metrics: &PollingMetrics) -> (r: String)
    ensures
        r@ == (if request@.len() >= 13 && request@.take(13) == metrics_request_start() {
            http_response("200 OK"@, rendered_metrics(metrics.last_successful_poll))
        } else {
            http_response("404 Not Found"@, "not found\n"@)
        }),
{
    if is_metrics_request(request) {
        response("200 OK", metrics.render().as_str())
    } else {
        response("404 Not Found", "not found\n")
    }
}

fn response(status: &str, body: &str) -> (r: String)
    ensures
        r@ == http_response(status@, body@),
{
    let length: usize = body.as_bytes().len();
    let head = text::cat5(
        "HTTP/1.1 ",
        status,
        "\r\nContent-Type: text/plain; version=0.0.4; charset=utf-8\r\nContent-Length: ",
        numeral::to_decimal(length as u64).as_str(),
        "\r\nConnection: close\r\n\r\n",
    );
    text::cat2(head.as_str(), body)
}

/// The metric is described by its name, its meaning and its kind; once there was a
/// success, its name and the time follow on a line of their own.
pub proof fn law_what_the_metrics_say(timestamp: u64)
    ensures
        ({
            let name = "maid_last_successful_poll_timestamp_seconds"@;
            let feed = seq!['\n'];
            let described = "# HELP "@ + name
                + " Unix timestamp of Maid's last successful GitHub poll."@ + feed + "# TYPE "@
                + name + " gauge"@ + feed;
            &&& rendered_metrics(0) == described
            &&& timestamp != 0 ==> rendered_metrics(timestamp) == described + name + seq![' ']
                + numeral::decimal(timestamp as nat) + feed
        }),
{
    reveal_strlit(" Unix timestamp of Maid's last successful GitHub poll.\n# TYPE ");
    reveal_strlit(" Unix timestamp of Maid's last successful GitHub poll.");
    reveal_strlit("# TYPE ");
    reveal_strlit(" gauge\n");
    reveal_strlit(" gauge");
    reveal_strlit(" ");
    reveal_strlit("\n");
    let name = "maid_last_successful_poll_timestamp_seconds"@;
    let feed = seq!['\n'];
    let meaning = " Unix timestamp of Maid's last successful GitHub poll."@;
    assert(" Unix timestamp of Maid's last successful GitHub poll.\n# TYPE "@ =~= meaning + feed
        + "# TYPE "@);
    assert(" gauge\n"@ =~= " gauge"@ + feed);
    assert(" "@ =~= seq![' ']);
    assert("\n"@ =~= feed);
    let described = "# HELP "@ + name + meaning + feed + "# TYPE "@ + name + " gauge"@ + feed;
    assert(rendered_metrics(0) =~= described);
    if timestamp != 0 {
        assert(rendered_metrics(timestamp) =~= described + name + seq![' '] + numeral::decimal(
            timestamp as nat,
        ) + feed);
    }
}

/// The metrics are asked for by a `GET` of `/metrics`.
pub proof fn law_what_asks_for_the_metrics()
    ensures
        metrics_request_start() == "GET /metrics "@.map_values(|c: char| c as u8),
{
    reveal_strlit("GET /metrics ");
    let asked = "GET /metrics "@.map_values(|c: char| c as u8);
    assert(asked.len() == 13);
    assert(asked[0] == 71 && asked[1] == 69 && asked[2] == 84 && asked[3] == 32);
    assert(asked[4] == 47 && asked[5] == 109 && asked[6] == 101 && asked[7] == 116);
    assert(asked[8] == 114 && asked[9] == 105 && asked[10] == 99 && asked[11] == 115);
    assert(asked[12] == 32);
    assert(metrics_request_start() =~= asked);
}

/// An answer gives its status first, says how many bytes its body has, closes the
/// connection, and ends with the body, behind an empty line.
pub proof fn law_what_an_answer_holds(status: Seq<char>, body: Seq<char>)
    ensures
        ({
            let answer = http_response(status, body);
            let end = seq!['\r', '\n'];
            let length = numeral::decimal(vstd::utf8::encode_utf8(body).len());
            answer == "HTTP/1.1 "@ + status + end
                + "Content-Type: text/plain; version=0.0.4; charset=utf-8"@ + end
                + "Content-Length: "@ + length + end + "Connection: close"@ + end + end + body
        }),
{
    reveal_strlit(
        "\r\nContent-Type: text/plain; version=0.0.4; charset=utf-8\r\nContent-Length: ",
    );
    reveal_strlit("Content-Type: text/plain; version=0.0.4; charset=utf-8");
    reveal_strlit("Content-Length: ");
    reveal_strlit("\r\nConnection: close\r\n\r\n");
    reveal_strlit("Connection: close");
    let end = seq!['\r', '\n'];
    let length = numeral::decimal(vstd::utf8::encode_utf8(body).len());
    assert("\r\nContent-Type: text/plain; version=0.0.4; charset=utf-8\r\nContent-Length: "@ =~= end
        + "Content-Type: text/plain; version=0.0.4; charset=utf-8"@ + end + "Content-Length: "@);
    assert("\r\nConnection: close\r\n\r\n"@ =~= end + "Connection: close"@ + end + end);
    assert(http_response(status, body) =~= "HTTP/1.1 "@ + status + end
        + "Content-Type: text/plain; version=0.0.4; charset=utf-8"@ + end + "Content-Length: "@
        + length + end + "Connection: close"@ + end + end + body);
}

/// A request for the metrics is answered with them, and any other request with the
/// word that there is nothing there.
pub proof fn law_how_requests_are_answered(
    request: &Vec<u8>,
    metrics: &PollingMetrics,
    r: String,
)
    requires
        call_ensures(respond, (request, metrics), r),
    ensures
        request@.len() >= 13 && request@.take(13) == metrics_request_start() ==> r@
            == http_response("200 OK"@, rendered_metrics(metrics.last_successful_poll)),
        request@.len() < 13 || request@.take(13) != metrics_request_start() ==> r@
            == http_response("404 Not Found"@, "not found\n"@),
{
}

/// The last success is the one that was recorded last.
pub proof fn law_the_last_success_counts(timestamp: u64)
    ensures
        forall|metrics: &mut PollingMetrics| #[trigger]
            call_ensures(PollingMetrics::record_success, (metrics, timestamp), ()) ==> (*final(metrics)).last_successful_poll == timestamp,
{
}

} // verus!
