//! The metrics service: its health states, and which requests it answers
//! with something other than the metrics.
use vstd::prelude::*;

verus! {

broadcast use vstd::string::group_string_axioms;

/// The health of the metrics service, reported as a gauge.
#[derive(Debug, Clone, Copy, PartialEq, Eq)]
pub enum ServiceStatus {
    Starting,
    Healthy,
    Broken,
}

impl ServiceStatus {
    /// The gauge value of the status: 0, 1 and 2 in declaration order.
    pub fn gauge_value(&self) -> (r: i64)
        ensures
            *self == ServiceStatus::Starting ==> r == 0,
            *self == ServiceStatus::Healthy ==> r == 1,
            *self == ServiceStatus::Broken ==> r == 2,
    {
        match self {
            ServiceStatus::Starting => 0,
            ServiceStatus::Healthy => 1,
            ServiceStatus::Broken => 2,
        }
    }
}

/// The metrics service.
#[derive(Debug)]
pub struct MetricsServer {}

impl MetricsServer {
    /// The metrics service.
    pub fn new() -> (r: Self) {
        MetricsServer {  }
    }

    /// The statuses the service reports while starting: none when it is
    /// disabled; else starting, then healthy once bound, then broken if
    /// serving failed.
    pub fn start_statuses(enable: bool, serving_failed: bool) -> (r: Vec<ServiceStatus>)
        ensures
            !enable ==> r@ == Seq::<ServiceStatus>::empty(),
            enable && !serving_failed ==> r@ == seq![ServiceStatus::Starting, ServiceStatus::Healthy],
            enable && serving_failed ==> r@ == seq![
                ServiceStatus::Starting,
                ServiceStatus::Healthy,
                ServiceStatus::Broken,
            ],
    {
        let mut v: Vec<ServiceStatus> = Vec::new();
        if enable {
            v.push(ServiceStatus::Starting);
            v.push(ServiceStatus::Healthy);
            if serving_failed {
                v.push(ServiceStatus::Broken);
            }
        }
        v
    }
}

/// `text` holds `word` somewhere.
pub open spec fn contains_text(text: Seq<char>, word: Seq<char>) -> bool {
    exists|i: int| 0 <= i && i + word.len() <= text.len() && #[trigger] text.subrange(i, i + word.len()) == word
}

/// Whether `text` holds `word` somewhere.
pub fn text_contains(text: &str, word: &str) -> (r: bool)
    ensures
        r == contains_text(text@, word@),
{
    let n = text.unicode_len();
    let m = word.unicode_len();
    if m > n {
        assert forall|i: int| 0 <= i && i + word@.len() <= text@.len() implies #[trigger] text@.subrange(
            i,
            i + word@.len(),
        ) != word@ by {}
        return false;
    }
    let mut i: usize = 0;
    while i <= n - m
        invariant
            n == text@.len(),
            m == word@.len(),
            m <= n,
            i <= n - m + 1,
            forall|k: int| 0 <= k < i ==> #[trigger] text@.subrange(k, k + m) != word@,
        decreases n - i,
    {
        let mut j: usize = 0;
        let mut same = true;
        while j < m
            invariant
                n == text@.len(),
                m == word@.len(),
                i + m <= n,
                j <= m,
                same == (forall|l: int| 0 <= l < j ==> text@[i + l] == word@[l]),
            decreases m - j,
        {
            if text.get_char(i + j) != word.get_char(j) {
                same = false;
            }
            j = j + 1;
        }
        if same {
            assert(text@.subrange(i as int, i + m) =~= word@);
            return true;
        }
        assert(text@.subrange(i as int, i + m) != word@) by {
            let l = choose|l: int| 0 <= l < m && text@[i + l] != word@[l];
            assert(text@.subrange(i as int, i + m)[l] == text@[i + l]);
        }
        i = i + 1;
    }
    false
}

/// Whether a request to the metrics service, by its URI, asks for the
/// hidden page rather than the metrics: its URI mentions "memes".
pub fn is_memes_request(uri: &str) -> (r: bool)
    ensures
        r == contains_text(uri@, "memes"@),
{
    text_contains(uri, "memes")
}

} // verus!
