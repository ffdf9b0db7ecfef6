//! Resolution of a raw URL path to a filesystem path confined under the
//! configured root directory: percent-decoding, UTF-8 validation, and a
//! component walk that refuses every parent-directory component. This walk is
//! the sole traversal defense; nothing downstream may ascend past the root.

use vstd::prelude::*;

verus! {

use vstd::string::StringSliceAdditionalSpecFns;
use vstd::utf8::valid_utf8;

/// Value of an ASCII hex digit, or -1 when the byte is not one.
pub open spec fn hex_val(b: u8) -> int {
    if 48 <= b <= 57 {
        b - 48
    } else if 65 <= b <= 70 {
        b - 55
    } else if 97 <= b <= 102 {
        b - 87
    } else {
        -1
    }
}

pub open spec fn is_hex(b: u8) -> bool {
    hex_val(b) >= 0
}

/// Percent-decoding: each `%` followed by two hex digits becomes the byte
/// they name; everything else passes through unchanged.
pub open spec fn spec_percent_decode(s: Seq<u8>) -> Seq<u8>
    decreases s.len(),
{
    if s.len() == 0 {
        Seq::empty()
    } else if s.len() >= 3 && s[0] == 37 && is_hex(s[1]) && is_hex(s[2]) {
        seq![(hex_val(s[1]) * 16 + hex_val(s[2])) as u8] + spec_percent_decode(s.skip(3))
    } else {
        seq![s[0]] + spec_percent_decode(s.skip(1))
    }
}

/// Decodes percent-escapes in a byte string.
pub fn percent_decode(s: &[u8]) -> (r: Vec<u8>)
    ensures
        r@ == spec_percent_decode(s@),
{
    let mut out: Vec<u8> = Vec::new();
    let mut i: usize = 0;
    assert(s@.skip(0) =~= s@);
    assert(out@ + spec_percent_decode(s@) =~= spec_percent_decode(s@));
    while i < s.len()
        invariant
            0 <= i <= s@.len(),
            spec_percent_decode(s@) == out@ + spec_percent_decode(s@.skip(i as int)),
        decreases s@.len() - i,
    {
        let ghost tail = s@.skip(i as int);
        assert(tail.len() == s@.len() - i);
        assert(tail[0] == s@[i as int]);
        if s.len() - i >= 3 && s[i] == 37 && hex_digit(s[i + 1]).is_some() && hex_digit(
            s[i + 2],
        ).is_some() {
            let h = hex_digit(s[i + 1]).unwrap();
            let l = hex_digit(s[i + 2]).unwrap();
            assert(tail[1] == s@[i + 1] && tail[2] == s@[i + 2]);
            out.push(h * 16 + l);
            assert(tail.skip(3) =~= s@.skip(i + 3));
            assert(out@ + spec_percent_decode(s@.skip(i + 3)) =~= (out@.drop_last()
                + spec_percent_decode(tail)));
            i += 3;
        } else {
            assert(!(tail.len() >= 3 && tail[0] == 37 && is_hex(tail[1]) && is_hex(tail[2])))
                by {
                if s@.len() - i >= 3 {
                    assert(tail[1] == s@[i + 1] && tail[2] == s@[i + 2]);
                }
            }
            out.push(s[i]);
            assert(tail.skip(1) =~= s@.skip(i + 1));
            assert(out@ + spec_percent_decode(s@.skip(i + 1)) =~= (out@.drop_last()
                + spec_percent_decode(tail)));
            i += 1;
        }
    }
    assert(s@.skip(i as int) =~= Seq::<u8>::empty());
    assert(out@ + spec_percent_decode(s@.skip(i as int)) =~= out@);
    out
}

/// Decodes one ASCII hex digit.
fn hex_digit(b: u8) -> (r: Option<u8>)
    ensures
        r is Some <==> is_hex(b),
        r is Some ==> r->0 == hex_val(b) && r->0 <= 15,
{
    if 48 <= b && b <= 57 {
        Some(b - 48)
    } else if 65 <= b && b <= 70 {
        Some(b - 55)
    } else if 97 <= b && b <= 102 {
        Some(b - 87)
    } else {
        None
    }
}

/// Splits a byte string on `/`, keeping empty components.
pub open spec fn spec_split_slash(s: Seq<u8>) -> Seq<Seq<u8>>
    decreases s.len(),
{
    if s.len() == 0 {
        seq![Seq::<u8>::empty()]
    } else if s.last() == 47 {
        spec_split_slash(s.drop_last()).push(Seq::empty())
    } else {
        let r = spec_split_slash(s.drop_last());
        r.update(r.len() - 1, r.last().push(s.last()))
    }
}

proof fn lemma_split_nonempty(s: Seq<u8>)
    ensures
        spec_split_slash(s).len() >= 1,
    decreases s.len(),
{
    if s.len() > 0 {
        lemma_split_nonempty(s.drop_last());
    }
}

/// A lone `.`: the current directory, a no-op in the walk.
pub open spec fn dot() -> Seq<u8> {
    seq![46u8]
}

/// `..`: a parent-directory component, always refused.
pub open spec fn dotdot() -> Seq<u8> {
    seq![46u8, 46u8]
}

/// One step of the walk: a parent-directory component poisons the result;
/// empty components (from the path root marker or doubled slashes) and `.`
/// are no-ops; a normal component is appended under a `/`.
pub open spec fn spec_walk_step(pre: Option<Seq<u8>>, c: Seq<u8>) -> Option<Seq<u8>> {
    if pre is None {
        None
    } else if c == dotdot() {
        None
    } else if c.len() == 0 || c == dot() {
        pre
    } else {
        Some(pre->0 + seq![47u8] + c)
    }
}

/// Walks the components in order, starting from the root path. `None` means
/// the path was refused.
pub open spec fn spec_walk(root: Seq<u8>, cs: Seq<Seq<u8>>) -> Option<Seq<u8>>
    decreases cs.len(),
{
    if cs.len() == 0 {
        Some(root)
    } else {
        spec_walk_step(spec_walk(root, cs.drop_last()), cs.last())
    }
}

/// Once a prefix of the walk is refused, the whole walk is refused.
proof fn lemma_walk_none_prefix(root: Seq<u8>, cs: Seq<Seq<u8>>, j: int)
    requires
        0 <= j <= cs.len(),
        spec_walk(root, cs.take(j)) is None,
    ensures
        spec_walk(root, cs) is None,
    decreases cs.len() - j,
{
    if j == cs.len() {
        assert(cs.take(j) =~= cs);
    } else {
        assert(cs.take(j + 1).drop_last() =~= cs.take(j));
        assert(cs.take(j + 1).last() == cs[j]);
        lemma_walk_none_prefix(root, cs, j + 1);
    }
}

/// Every walk over components free of `..` succeeds; one that meets a `..`
/// anywhere is refused, whatever stands around it.
pub proof fn lemma_parent_component_forbidden(root: Seq<u8>, cs: Seq<Seq<u8>>, k: int)
    requires
        0 <= k < cs.len(),
        cs[k] == dotdot(),
    ensures
        spec_walk(root, cs) is None,
    decreases cs.len(),
{
    if k == cs.len() - 1 {
        assert(cs.last() == dotdot());
    } else {
        assert(cs.drop_last()[k] == cs[k]);
        lemma_parent_component_forbidden(root, cs.drop_last(), k);
    }
}

/// Any decoded path that contains a parent-directory component is resolved
/// to `Forbidden`, whatever the root, however deep the component stands and
/// whatever surrounds it.
pub proof fn lemma_traversal_forbidden(root: Seq<u8>, decoded: Seq<u8>, k: int)
    requires
        valid_utf8(decoded),
        0 <= k < spec_split_slash(decoded).len(),
        spec_split_slash(decoded)[k] == dotdot(),
    ensures
        spec_resolve_decoded(root, decoded) is Forbidden,
{
    lemma_parent_component_forbidden(root, spec_split_slash(decoded), k);
}

/// The ghost form of a resolution outcome.
pub enum ResolutionSpec {
    BadEncoding,
    Forbidden,
    Resolved(Seq<u8>),
}

/// Outcome of resolving a raw URL path under a root directory.
#[derive(Debug, PartialEq, Eq)]
pub enum Resolution {
    /// The percent-decoded path is not valid UTF-8.
    BadEncoding,
    /// A parent-directory component was met: the path is refused.
    Forbidden,
    /// The confined filesystem path, as UTF-8 bytes.
    Resolved(Vec<u8>),
}

impl View for Resolution {
    type V = ResolutionSpec;

    open spec fn view(&self) -> ResolutionSpec {
        match self {
            Resolution::BadEncoding => ResolutionSpec::BadEncoding,
            Resolution::Forbidden => ResolutionSpec::Forbidden,
            Resolution::Resolved(p) => ResolutionSpec::Resolved(p@),
        }
    }
}

/// Resolution of an already percent-decoded path.
pub open spec fn spec_resolve_decoded(root: Seq<u8>, dec: Seq<u8>) -> ResolutionSpec {
    if !valid_utf8(dec) {
        ResolutionSpec::BadEncoding
    } else {
        match spec_walk(root, spec_split_slash(dec)) {
            None => ResolutionSpec::Forbidden,
            Some(p) => ResolutionSpec::Resolved(p),
        }
    }
}

/// Resolution of a raw URL path: percent-decode, validate UTF-8, then walk.
pub open spec fn spec_resolve(root: Seq<u8>, raw: Seq<u8>) -> ResolutionSpec {
    spec_resolve_decoded(root, spec_percent_decode(raw))
}

/// Relies on std::str::from_utf8: it succeeds exactly on well-formed UTF-8,
/// which vstd's `valid_utf8` models.
#[verifier::external_body]
fn utf8_check(b: &[u8]) -> (r: bool)
    ensures
        r == valid_utf8(b@),
{
    std::str::from_utf8(b).is_ok()
}

/// The views of a sequence of byte vectors.
pub open spec fn views(cs: Seq<Vec<u8>>) -> Seq<Seq<u8>> {
    cs.map_values(|v: Vec<u8>| v@)
}

/// Turns a raw URL path into a filesystem path under `root`, refusing bad
/// percent-encoding and any attempt to ascend past the root.
#[verifier::loop_isolation(false)]
pub fn resolve_path(root: &str, raw_path: &str) -> (r: Resolution)
    ensures
        r@ == spec_resolve(root.spec_bytes(), raw_path.spec_bytes()),
{
    let dec = percent_decode(raw_path.as_bytes());
    if !utf8_check(dec.as_slice()) {
        return Resolution::BadEncoding;
    }
    // Split the decoded path on `/`.
    let mut comps: Vec<Vec<u8>> = Vec::new();
    let mut cur: Vec<u8> = Vec::new();
    let mut i: usize = 0;
    while i < dec.len()
        invariant
            0 <= i <= dec@.len(),
            views(comps@).push(cur@) == spec_split_slash(dec@.take(i as int)),
        decreases dec@.len() - i,
    {
        let ghost pre = dec@.take(i as int);
        let ghost old_split = spec_split_slash(pre);
        assert(dec@.take(i + 1) =~= pre.push(dec@[i as int]));
        assert(dec@.take(i + 1).drop_last() =~= pre);
        if dec[i] == 47 {
            comps.push(cur);
            cur = Vec::new();
            assert(views(comps@).push(cur@) =~= old_split.push(Seq::empty()));
        } else {
            let b = dec[i];
            cur.push(b);
            proof {
                lemma_split_nonempty(pre);
                assert(old_split.last() == cur@.drop_last());
            }
            assert(views(comps@).push(cur@) =~= old_split.update(
                old_split.len() - 1,
                old_split.last().push(dec@[i as int]),
            ));
        }
        i += 1;
    }
    assert(dec@.take(i as int) =~= dec@);
    comps.push(cur);
    let ghost cv = spec_split_slash(dec@);
    assert(views(comps@) =~= cv);
    // Walk the components, building the confined path.
    let rootv: &[u8] = root.as_bytes();
    let mut path: Vec<u8> = Vec::new();
    path.extend_from_slice(rootv);
    assert(path@ =~= root.spec_bytes());
    let mut j: usize = 0;
    while j < comps.len()
        invariant
            0 <= j <= comps@.len(),
            views(comps@) == cv,
            spec_walk(root.spec_bytes(), cv.take(j as int)) == Some(path@),
        decreases comps@.len() - j,
    {
        let c = &comps[j];
        assert(cv.take(j + 1).drop_last() =~= cv.take(j as int));
        assert(cv.take(j + 1).last() == cv[j as int]);
        assert(cv[j as int] == c@);
        if c.len() == 2 && c[0] == 46 && c[1] == 46 {
            assert(c@ =~= dotdot());
            proof {
                lemma_walk_none_prefix(root.spec_bytes(), cv, j + 1);
            }
            return Resolution::Forbidden;
        } else if c.len() == 0 || (c.len() == 1 && c[0] == 46) {
            proof {
                if c.len() == 1 {
                    assert(c@ =~= dot());
                }
                assert(c@ != dotdot());
            }
        } else {
            assert(c@ != dotdot() && c@ != dot());
            let ghost p0 = path@;
            path.push(47);
            path.extend_from_slice(c.as_slice());
            assert(path@ =~= p0 + seq![47u8] + c@);
        }
        j += 1;
    }
    assert(cv.take(j as int) =~= cv);
    Resolution::Resolved(path)
}

} // verus!
