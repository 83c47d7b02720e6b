//! Classification of a fresh connection from the bytes it opens with, read
//! without consuming them.

use vstd::prelude::*;

verus! {

/// The opening of a short text request.
pub open spec fn text_preamble() -> Seq<u8> {
    seq![71u8, 69u8, 84u8, 32u8]
}

/// Where a connection goes after its leading bytes have been looked at.
#[derive(Clone, Copy, Debug, PartialEq, Eq, Structural)]
pub enum Sniffed {
    /// The peer closed before sending anything: drop it, with no effect on its
    /// reputation.
    Closed,
    /// The bytes so far could still open a text request: look again.
    NeedMore,
    /// A single-shot text request.
    TextRequest,
    /// Anything else goes to the synchronization backend.
    SyncHandshake,
}

pub open spec fn classification(prefix: Seq<u8>) -> Sniffed {
    let p = text_preamble();
    if prefix.len() == 0 {
        Sniffed::Closed
    } else if prefix.len() < p.len() && prefix == p.subrange(0, prefix.len() as int) {
        Sniffed::NeedMore
    } else if prefix.len() >= p.len() && prefix.subrange(0, p.len() as int) == p {
        Sniffed::TextRequest
    } else {
        Sniffed::SyncHandshake
    }
}

/// Classifies a connection by the bytes peeked from it so far.
pub fn classify(prefix: &[u8]) -> (r: Sniffed)
    ensures
        r == classification(prefix@),
{
    let preamble: [u8; 4] = [71u8, 69u8, 84u8, 32u8];
    proof {
        assert(preamble@ =~= text_preamble());
    }
    if prefix.len() == 0 {
        return Sniffed::Closed;
    }
    let n: usize = if prefix.len() < 4 { prefix.len() } else { 4 };
    let mut i: usize = 0;
    while i < n
        invariant
            0 <= i <= n,
            n == (if prefix@.len() < 4 { prefix@.len() } else { 4 }),
            preamble@ == text_preamble(),
            forall|j: int| 0 <= j < i ==> prefix@[j] == preamble@[j],
        decreases n - i,
    {
        if prefix[i] != preamble[i] {
            proof {
                assert(prefix@[i as int] != text_preamble()[i as int]);
                if prefix@.len() < 4 {
                    assert(prefix@[i as int] != text_preamble().subrange(0, prefix@.len() as int)[i as int]);
                } else {
                    assert(prefix@.subrange(0, 4)[i as int] != text_preamble()[i as int]);
                }
            }
            return Sniffed::SyncHandshake;
        }
        i = i + 1;
    }
    if prefix.len() < 4 {
        proof {
            assert(prefix@ =~= text_preamble().subrange(0, prefix@.len() as int));
        }
        Sniffed::NeedMore
    } else {
        proof {
            assert(prefix@.subrange(0, 4) =~= text_preamble());
        }
        Sniffed::TextRequest
    }
}


/// A request target as routed by the text path.
#[derive(Debug, PartialEq, Eq)]
pub enum Route {
    /// `/`: the usage text.
    Usage,
    /// `/doc/{id}`: the raw identifier bytes.
    Document(Vec<u8>),
    /// Anything else.
    Unknown,
}

/// Bytes that end a request target: space, CR, LF and `?`.
pub open spec fn is_delimiter(b: u8) -> bool {
    b == 32u8 || b == 13u8 || b == 10u8 || b == 63u8
}

pub open spec fn doc_prefix() -> Seq<u8> {
    seq![47u8, 100u8, 111u8, 99u8, 47u8]
}

/// `k` is where the target at the start of `s` ends.
pub open spec fn target_end(s: Seq<u8>, k: int) -> bool {
    &&& 0 <= k <= s.len()
    &&& forall|j: int| 0 <= j < k ==> !is_delimiter(#[trigger] s[j])
    &&& (k == s.len() || is_delimiter(s[k]))
}

/// Whether `r` is the route of target `t`.
pub open spec fn routes_to(t: Seq<u8>, r: Route) -> bool {
    if t == seq![47u8] {
        r == Route::Usage
    } else if t.len() > 5 && t.subrange(0, 5) == doc_prefix() && forall|j: int|
        5 <= j < t.len() ==> #[trigger] t[j] != 47u8 {
        r is Document && r->Document_0@ == t.subrange(5, t.len() as int)
    } else {
        r == Route::Unknown
    }
}

/// Routes a text request by the target of its request line.
pub fn route_request(line: &[u8]) -> (r: Route)
    ensures
        classification(line@) != Sniffed::TextRequest ==> r == Route::Unknown,
        classification(line@) == Sniffed::TextRequest ==> forall|k: int|
            target_end(line@.subrange(4, line@.len() as int), k) ==> routes_to(
                line@.subrange(4, line@.len() as int).subrange(0, k),
                r,
            ),
{
    if classify(line) != Sniffed::TextRequest {
        return Route::Unknown;
    }
    let ghost rest = line@.subrange(4, line@.len() as int);
    let mut end: usize = 4;
    while end < line.len() && !(line[end] == 32u8 || line[end] == 13u8 || line[end] == 10u8
        || line[end] == 63u8)
        invariant
            4 <= end <= line.len(),
            rest == line@.subrange(4, line@.len() as int),
            forall|j: int| 0 <= j < end - 4 ==> !is_delimiter(#[trigger] rest[j]),
        decreases line.len() - end,
    {
        end = end + 1;
    }
    let ghost k = end - 4;
    let ghost t = rest.subrange(0, k);
    proof {
        assert(target_end(rest, k));
        assert forall|k2: int| target_end(rest, k2) implies k2 == k by {
            if k2 < k {
                assert(!is_delimiter(rest[k2]));
            } else if k2 > k {
                assert(!is_delimiter(rest[k]));
            }
        }
        assert(t =~= line@.subrange(4, end as int));
    }
    let len: usize = end - 4;
    if len == 1 && line[4] == 47u8 {
        proof {
            assert(t =~= seq![47u8]);
        }
        return Route::Usage;
    }
    let is_doc = len > 5 && line[4] == 47u8 && line[5] == 100u8 && line[6] == 111u8 && line[7]
        == 99u8 && line[8] == 47u8;
    if !is_doc {
        proof {
            if t == seq![47u8] {
                assert(t[0] == line@[4]);
            }
            if t.len() > 5 && t.subrange(0, 5) == doc_prefix() {
                assert(t.subrange(0, 5)[0] == t[0]);
                assert(t.subrange(0, 5)[1] == t[1]);
                assert(t.subrange(0, 5)[2] == t[2]);
                assert(t.subrange(0, 5)[3] == t[3]);
                assert(t.subrange(0, 5)[4] == t[4]);
            }
        }
        return Route::Unknown;
    }
    proof {
        assert(t.subrange(0, 5) =~= doc_prefix());
        assert(t != seq![47u8]);
    }
    let mut id: Vec<u8> = Vec::new();
    let mut i: usize = 9;
    while i < end
        invariant
            9 <= i <= end,
            end <= line.len(),
            t == line@.subrange(4, end as int),
            t == rest.subrange(0, k),
            forall|k2: int| target_end(rest, k2) ==> k2 == k,
            rest == line@.subrange(4, line@.len() as int),
            classification(line@) == Sniffed::TextRequest,
            id@ == line@.subrange(9, i as int),
            forall|j: int| 5 <= j < i - 4 ==> #[trigger] t[j] != 47u8,
        decreases end - i,
    {
        if line[i] == 47u8 {
            proof {
                assert(t[i - 4] == 47u8);
                assert(!(forall|j: int| 5 <= j < t.len() ==> #[trigger] t[j] != 47u8));
                assert(routes_to(t, Route::Unknown));
            }
            return Route::Unknown;
        }
        id.push(line[i]);
        proof {
            assert(id@ =~= line@.subrange(9, i + 1));
        }
        i = i + 1;
    }
    proof {
        assert(id@ =~= t.subrange(5, t.len() as int));
    }
    Route::Document(id)
}

} // verus!
