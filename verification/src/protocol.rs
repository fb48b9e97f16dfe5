//! The PTY-side GNative protocol: an OSC request `ESC ] 777 ; gnative = <app-name> BEL`
//! that a program running in the PTY writes to ask its GShell to enter GNative mode.

use vstd::prelude::*;
use vstd::utf8::{valid_utf8, decode_utf8, encode_utf8, encode_utf8_decode_utf8};

verus! {

/// The bytes that open a GNative request: `ESC ] 777 ; gnative =`.
pub open spec fn gnative_request_prefix() -> Seq<u8> {
    seq![0x1bu8, 0x5du8, 0x37u8, 0x37u8, 0x37u8, 0x3bu8, 0x67u8, 0x6eu8, 0x61u8, 0x74u8, 0x69u8, 0x76u8, 0x65u8, 0x3du8]
}

/// The byte that closes a GNative request: BEL.
pub const GNATIVE_REQUEST_TERMINATOR: u8 = 0x07;

/// The prefix that opens a GNative request, as bytes.
pub fn gnative_request_prefix_bytes() -> (prefix: Vec<u8>)
    ensures
        prefix@ == gnative_request_prefix(),
{
    let v: Vec<u8> = vec![0x1bu8, 0x5du8, 0x37u8, 0x37u8, 0x37u8, 0x3bu8, 0x67u8, 0x6eu8, 0x61u8, 0x74u8, 0x69u8, 0x76u8, 0x65u8, 0x3du8];
    proof {
        assert(v@ =~= gnative_request_prefix());
    }
    v
}

/// Whether `pat` occurs in `bytes` starting at index `i`.
pub open spec fn occurs_at(bytes: Seq<u8>, pat: Seq<u8>, i: int) -> bool {
    0 <= i && i + pat.len() <= bytes.len() && bytes.subrange(i, i + pat.len()) == pat
}

/// The first index at or after `from` where `pat` occurs in `bytes`.
pub open spec fn first_occurrence(bytes: Seq<u8>, pat: Seq<u8>, from: int) -> Option<int>
    decreases bytes.len() + 1 - from,
{
    if from < 0 || from + pat.len() > bytes.len() {
        None
    } else if occurs_at(bytes, pat, from) {
        Some(from)
    } else {
        first_occurrence(bytes, pat, from + 1)
    }
}

/// The bytes of the app name requested in `bytes`: those after the first
/// request prefix, up to the first terminator that follows it.
pub open spec fn requested_app_bytes(bytes: Seq<u8>) -> Option<Seq<u8>> {
    match first_occurrence(bytes, gnative_request_prefix(), 0) {
        None => None,
        Some(p) => {
            let start = p + gnative_request_prefix().len();
            match first_occurrence(bytes, seq![GNATIVE_REQUEST_TERMINATOR], start) {
                None => None,
                Some(t) => Some(bytes.subrange(start, t)),
            }
        },
    }
}

/// Whether `bytes` hold a well-formed GNative request: a prefix, then a
/// non-empty UTF-8 app name closed by the terminator.
pub open spec fn holds_gnative_request(bytes: Seq<u8>) -> bool {
    requested_app_bytes(bytes) matches Some(app) && app.len() > 0 && valid_utf8(app)
}

/// The app name that a well-formed request in `bytes` asks for.
pub open spec fn requested_app_name(bytes: Seq<u8>) -> Seq<char> {
    decode_utf8(requested_app_bytes(bytes)->0)
}

/// `first_occurrence` finds the least index at or after `from`.
pub proof fn lemma_first_occurrence(bytes: Seq<u8>, pat: Seq<u8>, from: int)
    requires
        from >= 0,
    ensures
        first_occurrence(bytes, pat, from) matches Some(i) ==> from <= i && occurs_at(bytes, pat, i) && forall|
            j: int,
        | from <= j < i ==> !#[trigger] occurs_at(bytes, pat, j),
        first_occurrence(bytes, pat, from) is None ==> forall|j: int| from <= j ==> !#[trigger] occurs_at(bytes, pat, j),
    decreases bytes.len() + 1 - from,
{
    if from + pat.len() > bytes.len() {
    } else if occurs_at(bytes, pat, from) {
    } else {
        lemma_first_occurrence(bytes, pat, from + 1);
    }
}

/// `first_occurrence` from `from` is `i` when `pat` occurs at `i` and nowhere in between.
proof fn lemma_first_occurrence_at(bytes: Seq<u8>, pat: Seq<u8>, from: int, i: int)
    requires
        0 <= from <= i,
        occurs_at(bytes, pat, i),
        forall|j: int| from <= j < i ==> !#[trigger] occurs_at(bytes, pat, j),
    ensures
        first_occurrence(bytes, pat, from) == Some(i),
    decreases i - from,
{
    if from < i {
        lemma_first_occurrence_at(bytes, pat, from + 1, i);
    }
}

/// Bytes appended after index `j + pat.len()` do not change whether `pat` occurs at `j`.
proof fn lemma_occurs_at_append(b: Seq<u8>, c: Seq<u8>, pat: Seq<u8>, j: int)
    requires
        0 <= j,
        j + pat.len() <= b.len(),
    ensures
        occurs_at(b + c, pat, j) == occurs_at(b, pat, j),
{
    assert((b + c).subrange(j, j + pat.len()) =~= b.subrange(j, j + pat.len()));
}

/// Bytes prepended shift every occurrence by their length.
proof fn lemma_occurs_at_prepend(a: Seq<u8>, b: Seq<u8>, pat: Seq<u8>, j: int)
    requires
        0 <= j,
    ensures
        occurs_at(a + b, pat, a.len() + j) == occurs_at(b, pat, j),
{
    if j + pat.len() <= b.len() {
        assert((a + b).subrange(a.len() + j, a.len() + j + pat.len()) =~= b.subrange(j, j + pat.len()));
    }
}

/// A request found in some output is found, with the same app name, once more
/// output is appended to it.
pub proof fn law_gnative_request_kept_by_appended_output(b: Seq<u8>, c: Seq<u8>)
    requires
        holds_gnative_request(b),
    ensures
        holds_gnative_request(b + c),
        requested_app_name(b + c) == requested_app_name(b),
{
    let pre = gnative_request_prefix();
    let term = seq![GNATIVE_REQUEST_TERMINATOR];
    let bc = b + c;
    lemma_first_occurrence(b, pre, 0);
    let p = first_occurrence(b, pre, 0)->0;
    let start = p + pre.len();
    lemma_first_occurrence(b, term, start);
    let t = first_occurrence(b, term, start)->0;
    lemma_occurs_at_append(b, c, pre, p);
    assert forall|j: int| 0 <= j < p implies !#[trigger] occurs_at(bc, pre, j) by {
        lemma_occurs_at_append(b, c, pre, j);
    }
    lemma_first_occurrence_at(bc, pre, 0, p);
    lemma_occurs_at_append(b, c, term, t);
    assert forall|j: int| start <= j < t implies !#[trigger] occurs_at(bc, term, j) by {
        lemma_occurs_at_append(b, c, term, j);
    }
    lemma_first_occurrence_at(bc, term, start, t);
    assert(bc.subrange(start, t) =~= b.subrange(start, t));
}

/// A request found in some output is found, with the same app name, once
/// output without any ESC byte (0x1b) is put before it.
pub proof fn law_gnative_request_kept_by_prepended_output(a: Seq<u8>, b: Seq<u8>)
    requires
        holds_gnative_request(b),
        forall|i: int| 0 <= i < a.len() ==> a[i] != 0x1bu8,
    ensures
        holds_gnative_request(a + b),
        requested_app_name(a + b) == requested_app_name(b),
{
    let pre = gnative_request_prefix();
    let term = seq![GNATIVE_REQUEST_TERMINATOR];
    let ab = a + b;
    let n = a.len() as int;
    lemma_first_occurrence(b, pre, 0);
    let p = first_occurrence(b, pre, 0)->0;
    let start = p + pre.len();
    lemma_first_occurrence(b, term, start);
    let t = first_occurrence(b, term, start)->0;
    lemma_occurs_at_prepend(a, b, pre, p);
    assert forall|j: int| 0 <= j < n + p implies !#[trigger] occurs_at(ab, pre, j) by {
        if j < n {
            if occurs_at(ab, pre, j) {
                assert(ab.subrange(j, j + pre.len())[0] == ab[j]);
                assert(ab[j] == a[j]);
            }
        } else {
            lemma_occurs_at_prepend(a, b, pre, j - n);
        }
    }
    lemma_first_occurrence_at(ab, pre, 0, n + p);
    lemma_occurs_at_prepend(a, b, term, t);
    assert forall|j: int| n + start <= j < n + t implies !#[trigger] occurs_at(ab, term, j) by {
        lemma_occurs_at_prepend(a, b, term, j - n);
    }
    lemma_first_occurrence_at(ab, term, n + start, n + t);
    assert(ab.subrange(n + start, n + t) =~= b.subrange(start, t));
}

/// Name of a GNative app, as requested through the protocol.
#[derive(Debug, Clone, PartialEq, Eq)]
pub struct GNativeAppName(String);

impl View for GNativeAppName {
    type V = Seq<char>;

    closed spec fn view(&self) -> Seq<char> {
        self.0@
    }
}

impl GNativeAppName {
    pub fn new(value: &str) -> (name: Self)
        ensures
            name@ == value@,
    {
        GNativeAppName(value.to_owned())
    }

    pub fn as_str(&self) -> (s: &str)
        ensures
            s@ == self@,
    {
        self.0.as_str()
    }
}

/// A request of the GNative protocol.
#[derive(Debug, Clone, PartialEq, Eq)]
pub enum GRequest {
    EnterGNative { app: GNativeAppName },
}

/// `std::str::from_utf8`: as its documentation states, it succeeds exactly when
/// the bytes are valid UTF-8, and the string it gives then holds those bytes.
#[verifier::external_body]
fn str_from_utf8(bytes: &[u8]) -> (r: Option<&str>)
    ensures
        r is Some <==> valid_utf8(bytes@),
        r matches Some(s) ==> encode_utf8(s@) == bytes@,
{
    std::str::from_utf8(bytes).ok()
}

/// Whether `pat` occurs in `bytes` at `i`.
fn matches_at(bytes: &[u8], pat: &[u8], i: usize) -> (b: bool)
    requires
        i + pat@.len() <= bytes@.len(),
    ensures
        b == occurs_at(bytes@, pat@, i as int),
{
    let n = bytes.len();
    let mut k: usize = 0;
    while k < pat.len()
        invariant
            n == bytes@.len(),
            i + pat@.len() <= bytes@.len(),
            0 <= k <= pat@.len(),
            forall|j: int| 0 <= j < k ==> bytes@[i + j] == pat@[j],
        decreases pat.len() - k,
    {
        if bytes[i + k] != pat[k] {
            proof {
                assert(bytes@.subrange(i as int, i + pat@.len())[k as int] != pat@[k as int]);
            }
            return false;
        }
        k = k + 1;
    }
    proof {
        assert(bytes@.subrange(i as int, i + pat@.len()) =~= pat@);
    }
    true
}

/// The first index at or after `from` where `pat` occurs in `bytes`.
fn find_from(bytes: &[u8], pat: &[u8], from: usize) -> (r: Option<usize>)
    ensures
        r matches Some(i) ==> first_occurrence(bytes@, pat@, from as int) == Some(i as int),
        r is None ==> first_occurrence(bytes@, pat@, from as int) is None,
{
    if pat.len() > bytes.len() || from > bytes.len() - pat.len() {
        proof {
            lemma_first_occurrence(bytes@, pat@, from as int);
        }
        return None;
    }
    let last = bytes.len() - pat.len();
    let mut i = from;
    loop
        invariant
            from <= i <= last,
            last + pat@.len() == bytes@.len(),
            first_occurrence(bytes@, pat@, from as int) == first_occurrence(bytes@, pat@, i as int),
        decreases last - i,
    {
        if matches_at(bytes, pat, i) {
            return Some(i);
        }
        if i == last {
            return None;
        }
        i = i + 1;
    }
}

/// Whether `target` occurs anywhere in `bytes`. The target must not be empty.
pub fn contains_bytes(bytes: &[u8], target: &[u8]) -> (b: bool)
    requires
        target@.len() > 0,
    ensures
        b == exists|i: int| #[trigger] occurs_at(bytes@, target@, i),
{
    let r = find_from(bytes, target, 0);
    proof {
        lemma_first_occurrence(bytes@, target@, 0);
    }
    r.is_some()
}

/// Finds a GNative request in PTY output: the first request prefix, then the
/// app name up to the first terminator after it. No request is found when
/// there is no prefix, no terminator after it, or the name is empty or not UTF-8.
pub fn detect_gnative_request(bytes: &[u8]) -> (r: Option<GRequest>)
    ensures
        r is Some <==> holds_gnative_request(bytes@),
        r matches Some(GRequest::EnterGNative { app }) ==> app@ == requested_app_name(bytes@),
{
    let n = bytes.len();
    let prefix = gnative_request_prefix_bytes();
    let prefix_start = match find_from(bytes, prefix.as_slice(), 0) {
        Some(p) => p,
        None => return None,
    };
    proof {
        lemma_first_occurrence(bytes@, prefix@, 0);
    }
    let app_start = prefix_start + prefix.len();
    let term: [u8; 1] = [GNATIVE_REQUEST_TERMINATOR];
    proof {
        assert(term@ =~= seq![GNATIVE_REQUEST_TERMINATOR]);
    }
    let app_end = match find_from(bytes, &term, app_start) {
        Some(t) => t,
        None => return None,
    };
    proof {
        lemma_first_occurrence(bytes@, term@, app_start as int);
    }
    if app_end == app_start {
        return None;
    }
    let mut app_bytes: Vec<u8> = Vec::new();
    let mut k = app_start;
    while k < app_end
        invariant
            app_start <= k <= app_end,
            app_end < bytes@.len(),
            app_bytes@ == bytes@.subrange(app_start as int, k as int),
        decreases app_end - k,
    {
        app_bytes.push(bytes[k]);
        k = k + 1;
        proof {
            assert(app_bytes@ =~= bytes@.subrange(app_start as int, k as int));
        }
    }
    let app_name = match str_from_utf8(app_bytes.as_slice()) {
        Some(s) => s,
        None => return None,
    };
    proof {
        encode_utf8_decode_utf8(app_name@);
    }
    Some(GRequest::EnterGNative { app: GNativeAppName::new(app_name) })
}

} // verus!
