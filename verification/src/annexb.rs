//! H.264 Annex-B byte streams: start codes, NAL splitting, and AVCC length-prefixed samples.

use vstd::prelude::*;

verus! {

/// `s[i..i + 4] == 00 00 00 01`.
pub open spec fn is_start4(s: Seq<u8>, i: int) -> bool {
    &&& 0 <= i
    &&& i + 4 <= s.len()
    &&& s[i] == 0
    &&& s[i + 1] == 0
    &&& s[i + 2] == 0
    &&& s[i + 3] == 1
}

/// `s[i..i + 3] == 00 00 01`.
pub open spec fn is_start3(s: Seq<u8>, i: int) -> bool {
    &&& 0 <= i
    &&& i + 3 <= s.len()
    &&& s[i] == 0
    &&& s[i + 1] == 0
    &&& s[i + 2] == 1
}

/// Length of the start code that begins at `i` (the four-byte form wins over the three-byte one).
pub open spec fn spec_start_code_len(s: Seq<u8>, i: int) -> Option<nat> {
    if is_start4(s, i) {
        Some(4nat)
    } else if is_start3(s, i) {
        Some(3nat)
    } else {
        None
    }
}

/// First position `p >= from` with `p + 2 < s.len()` at which a start code begins.
pub open spec fn spec_next_start_code(s: Seq<u8>, from: int) -> Option<int>
    decreases s.len() - from,
{
    if from < 0 || from + 2 >= s.len() {
        None
    } else if spec_start_code_len(s, from) is Some {
        Some(from)
    } else {
        spec_next_start_code(s, from + 1)
    }
}

pub proof fn lemma_next_start_code_bounds(s: Seq<u8>, from: int)
    ensures
        spec_next_start_code(s, from) matches Some(p) ==> from <= p && p + 2 < s.len()
            && spec_start_code_len(s, p) is Some,
    decreases s.len() - from,
{
    if from >= 0 && from + 2 < s.len() && spec_start_code_len(s, from) is None {
        lemma_next_start_code_bounds(s, from + 1);
    }
}

/// End of the NAL unit whose payload begins at `from`: the next start code, or the end of `s`.
pub open spec fn spec_nal_end(s: Seq<u8>, from: int) -> int {
    match spec_next_start_code(s, from) {
        Some(p) => p,
        None => s.len() as int,
    }
}

/// The NAL payloads (start codes removed, empty payloads dropped) of `s` scanned from `i`.
pub open spec fn spec_nal_units_from(s: Seq<u8>, i: int) -> Seq<Seq<u8>>
    decreases s.len() - i,
{
    if i < 0 || i >= s.len() {
        Seq::empty()
    } else {
        match spec_start_code_len(s, i) {
            None => spec_nal_units_from(s, i + 1),
            Some(sc) => {
                let from = i + sc;
                let to = spec_nal_end(s, from);
                proof {
                    lemma_next_start_code_bounds(s, from);
                }
                if from < to {
                    seq![s.subrange(from, to)] + spec_nal_units_from(s, to)
                } else {
                    spec_nal_units_from(s, to)
                }
            },
        }
    }
}

/// All NAL payloads of an Annex-B buffer.
pub open spec fn spec_nal_units(s: Seq<u8>) -> Seq<Seq<u8>> {
    spec_nal_units_from(s, 0)
}

/// The NAL unit type: low five bits of the header byte.
pub open spec fn spec_nal_type(nal: Seq<u8>) -> Option<u8> {
    if nal.len() == 0 {
        None
    } else {
        Some(nal[0] & 0x1f)
    }
}

/// Big-endian bytes of a 32-bit value.
pub open spec fn be32(x: u32) -> Seq<u8> {
    seq![(x >> 24u32) as u8, (x >> 16u32) as u8, (x >> 8u32) as u8, x as u8]
}

/// AVCC sample: each NAL prefixed by its length (truncated to 32 bits, as a `u32` cast does).
pub open spec fn spec_avcc_sample(nals: Seq<Seq<u8>>) -> Seq<u8>
    decreases nals.len(),
{
    if nals.len() == 0 {
        Seq::empty()
    } else {
        spec_avcc_sample(nals.drop_last()) + be32(nals.last().len() as u32) + nals.last()
    }
}

/// The four-byte Annex-B start code.
pub open spec fn start_code4() -> Seq<u8> {
    seq![0u8, 0u8, 0u8, 1u8]
}

/// Annex-B stream made of `nals`, each preceded by a four-byte start code.
pub open spec fn spec_annex_b_join(nals: Seq<Seq<u8>>) -> Seq<u8>
    decreases nals.len(),
{
    if nals.len() == 0 {
        Seq::empty()
    } else {
        spec_annex_b_join(nals.drop_last()) + start_code4() + nals.last()
    }
}

/// An Annex-B start code: four bytes (`00 00 00 01`) when `long`, else three (`00 00 01`).
pub open spec fn start_code(long: bool) -> Seq<u8> {
    if long {
        start_code4()
    } else {
        seq![0u8, 0u8, 1u8]
    }
}

/// Annex-B stream made of `nals`, NAL unit `k` preceded by the start code `start_code(long[k])`.
pub open spec fn spec_annex_b_join_mixed(nals: Seq<Seq<u8>>, long: Seq<bool>) -> Seq<u8>
    decreases nals.len(),
{
    if nals.len() == 0 {
        Seq::empty()
    } else {
        start_code(long[0]) + nals[0] + spec_annex_b_join_mixed(nals.drop_first(), long.drop_first())
    }
}

/// What may follow a NAL unit in a stream: nothing, or a start code.
pub open spec fn follows_nal(t: Seq<u8>) -> bool {
    t.len() == 0 || is_start4(t, 0) || is_start3(t, 0)
}

/// A NAL payload that survives an Annex-B round trip: non-empty, free of the `00 00 01`
/// start-code prefix, and not ending in a zero byte (which would merge into the next start code).
pub open spec fn wf_nal(n: Seq<u8>) -> bool {
    &&& n.len() > 0
    &&& n.last() != 0
    &&& forall|j: int| !is_start3(n, j)
}

proof fn lemma_shift_start_code(p: Seq<u8>, t: Seq<u8>, j: int)
    requires
        0 <= j,
    ensures
        spec_start_code_len(p + t, p.len() + j) == spec_start_code_len(t, j),
{
    let u = p + t;
    let k = p.len() + j;
    if j + 4 <= t.len() {
        assert(u[k] == t[j] && u[k + 1] == t[j + 1] && u[k + 2] == t[j + 2] && u[k + 3] == t[j
            + 3]);
    }
    if j + 3 <= t.len() {
        assert(u[k] == t[j] && u[k + 1] == t[j + 1] && u[k + 2] == t[j + 2]);
    }
}

proof fn lemma_shift_next_start_code(p: Seq<u8>, t: Seq<u8>, j: int)
    requires
        0 <= j,
    ensures
        spec_next_start_code(p + t, p.len() + j) == (match spec_next_start_code(t, j) {
            Some(x) => Some(x + p.len()),
            None => None,
        }),
    decreases t.len() - j,
{
    lemma_shift_start_code(p, t, j);
    if j + 2 < t.len() && spec_start_code_len(t, j) is None {
        lemma_shift_next_start_code(p, t, j + 1);
    }
}

proof fn lemma_shift_nal_units(p: Seq<u8>, t: Seq<u8>, j: int)
    requires
        0 <= j,
    ensures
        spec_nal_units_from(p + t, p.len() + j) == spec_nal_units_from(t, j),
    decreases t.len() - j,
{
    let u = p + t;
    if j < t.len() {
        lemma_shift_start_code(p, t, j);
        match spec_start_code_len(t, j) {
            None => {
                lemma_shift_nal_units(p, t, j + 1);
            },
            Some(sc) => {
                let from = j + sc;
                lemma_shift_next_start_code(p, t, from);
                lemma_next_start_code_bounds(t, from);
                let to = spec_nal_end(t, from);
                assert(spec_nal_end(u, p.len() + from) == p.len() + to);
                lemma_shift_nal_units(p, t, to);
                assert(u.subrange(p.len() + from, p.len() + to) =~= t.subrange(from, to));
            },
        }
    }
}

/// Inside a well-formed NAL followed by nothing or by a start code, the next start code is exactly
/// where that follower begins.
proof fn lemma_nal_end(n: Seq<u8>, t: Seq<u8>, j: int)
    requires
        wf_nal(n),
        follows_nal(t),
        0 <= j <= n.len(),
    ensures
        spec_next_start_code(n + t, j) == (if t.len() == 0 {
            None::<int>
        } else {
            Some(n.len() as int)
        }),
    decreases n.len() - j,
{
    let u = n + t;
    let l = n.len() as int;
    if j == l {
        if is_start4(t, 0) {
            assert(u[l] == t[0] && u[l + 1] == t[1] && u[l + 2] == t[2] && u[l + 3] == t[3]);
            assert(is_start4(u, l));
        } else if is_start3(t, 0) {
            assert(u[l] == t[0] && u[l + 1] == t[1] && u[l + 2] == t[2]);
            assert(is_start3(u, l));
        }
    } else {
        assert(n.last() == n[l - 1]);
        assert(u[l - 1] == n[l - 1]);
        if t.len() > 0 {
            assert(u[l] == t[0]);
        }
        if is_start4(u, j) {
            if j + 3 < l {
                assert(is_start3(n, j + 1));
            }
        }
        if is_start3(u, j) {
            if j + 2 < l {
                assert(is_start3(n, j));
            }
        }
        assert(spec_start_code_len(u, j) is None);
        lemma_nal_end(n, t, j + 1);
    }
}

proof fn lemma_annex_b_join_front(nals: Seq<Seq<u8>>)
    requires
        nals.len() > 0,
    ensures
        spec_annex_b_join(nals) == start_code4() + nals[0] + spec_annex_b_join(nals.drop_first()),
    decreases nals.len(),
{
    if nals.len() == 1 {
        assert(spec_annex_b_join(nals.drop_last()) =~= Seq::<u8>::empty());
        assert(spec_annex_b_join(nals.drop_first()) =~= Seq::<u8>::empty());
        assert(spec_annex_b_join(nals) =~= start_code4() + nals[0]);
    } else {
        let dl = nals.drop_last();
        lemma_annex_b_join_front(dl);
        assert(nals.drop_first().drop_last() =~= dl.drop_first());
        assert(nals.drop_first().last() == nals.last());
        assert(spec_annex_b_join(nals) =~= start_code4() + nals[0] + spec_annex_b_join(
            nals.drop_first(),
        ));
    }
}

/// A joined stream begins with the start code of its first NAL unit.
proof fn lemma_mixed_join_head(nals: Seq<Seq<u8>>, long: Seq<bool>)
    requires
        long.len() == nals.len(),
    ensures
        follows_nal(spec_annex_b_join_mixed(nals, long)),
        nals.len() > 0 ==> spec_start_code_len(spec_annex_b_join_mixed(nals, long), 0) == Some(
            start_code(long[0]).len(),
        ),
{
    if nals.len() > 0 {
        let s = spec_annex_b_join_mixed(nals, long);
        if long[0] {
            assert(s[0] == 0 && s[1] == 0 && s[2] == 0 && s[3] == 1);
            assert(is_start4(s, 0));
        } else {
            assert(s[0] == 0 && s[1] == 0 && s[2] == 1);
            assert(is_start3(s, 0));
        }
    }
}

/// Splitting an Annex-B stream built from well-formed NAL payloads, each behind a three- or
/// four-byte start code, gives those payloads back.
pub proof fn law_nal_units_of_mixed_join(nals: Seq<Seq<u8>>, long: Seq<bool>)
    requires
        long.len() == nals.len(),
        forall|k: int| 0 <= k < nals.len() ==> #[trigger] wf_nal(nals[k]),
    ensures
        spec_nal_units(spec_annex_b_join_mixed(nals, long)) == nals,
    decreases nals.len(),
{
    if nals.len() == 0 {
        assert(spec_nal_units(spec_annex_b_join_mixed(nals, long)) =~= nals);
    } else {
        let n0 = nals[0];
        let rest = nals.drop_first();
        let lrest = long.drop_first();
        assert(forall|k: int| 0 <= k < rest.len() ==> rest[k] == nals[k + 1]);
        assert(wf_nal(n0));
        law_nal_units_of_mixed_join(rest, lrest);
        let rs = spec_annex_b_join_mixed(rest, lrest);
        let s = spec_annex_b_join_mixed(nals, long);
        let sc = start_code(long[0]);
        let l = sc.len() as int;
        lemma_mixed_join_head(rest, lrest);
        lemma_mixed_join_head(nals, long);
        lemma_nal_end(n0, rs, 0);
        assert(s =~= sc + (n0 + rs));
        assert(s =~= (sc + n0) + rs);
        lemma_shift_next_start_code(sc, n0 + rs, 0);
        assert(spec_nal_end(s, l) == l + n0.len());
        lemma_shift_nal_units(sc + n0, rs, 0);
        assert(s.subrange(l, l + n0.len() as int) =~= n0);
        assert(spec_nal_units(s) =~= seq![n0] + rest);
        assert(seq![n0] + rest =~= nals);
    }
}

/// The four-byte join is the mixed join with every start code long.
proof fn lemma_join_is_mixed(nals: Seq<Seq<u8>>)
    ensures
        spec_annex_b_join(nals) == spec_annex_b_join_mixed(nals, Seq::new(nals.len(), |_k: int| true)),
    decreases nals.len(),
{
    let all = Seq::new(nals.len(), |_k: int| true);
    if nals.len() == 0 {
        assert(spec_annex_b_join(nals) =~= Seq::<u8>::empty());
    } else {
        lemma_annex_b_join_front(nals);
        lemma_join_is_mixed(nals.drop_first());
        assert(all.drop_first() =~= Seq::new(nals.drop_first().len(), |_k: int| true));
        assert(all[0]);
    }
}

/// Splitting the Annex-B stream built from well-formed NAL payloads gives those payloads back.
pub proof fn law_nal_units_of_annex_b_join(nals: Seq<Seq<u8>>)
    requires
        forall|k: int| 0 <= k < nals.len() ==> #[trigger] wf_nal(nals[k]),
    ensures
        spec_nal_units(spec_annex_b_join(nals)) == nals,
{
    lemma_join_is_mixed(nals);
    law_nal_units_of_mixed_join(nals, Seq::new(nals.len(), |_k: int| true));
}

/// No start code begins inside a well-formed NAL followed by nothing or by a start code.
proof fn lemma_no_start_code_inside(n: Seq<u8>, t: Seq<u8>, j: int)
    requires
        wf_nal(n),
        follows_nal(t),
        0 <= j < n.len(),
    ensures
        !is_start4(n + t, j),
        !is_start3(n + t, j),
{
    let u = n + t;
    let l = n.len() as int;
    assert(n.last() == n[l - 1]);
    assert(u[l - 1] == n[l - 1]);
    if t.len() > 0 {
        assert(u[l] == t[0]);
    }
    if is_start4(u, j) {
        if j + 3 < l {
            assert(is_start3(n, j + 1));
        }
    }
    if is_start3(u, j) {
        if j + 2 < l {
            assert(is_start3(n, j));
        }
    }
}

proof fn lemma_shift_keyframe(p: Seq<u8>, t: Seq<u8>, j: int)
    requires
        0 <= j,
    ensures
        spec_keyframe_from(p + t, p.len() + j) == spec_keyframe_from(t, j),
    decreases t.len() - j,
{
    let u = p + t;
    let k = p.len() + j;
    if j < t.len() {
        if j + 4 <= t.len() {
            assert(u[k] == t[j] && u[k + 1] == t[j + 1] && u[k + 2] == t[j + 2] && u[k + 3] == t[j
                + 3]);
        }
        if j + 3 <= t.len() {
            assert(u[k] == t[j] && u[k + 1] == t[j + 1] && u[k + 2] == t[j + 2]);
        }
        assert(is_start4(u, k) == is_start4(t, j));
        assert(is_start3(u, k) == is_start3(t, j));
        if is_start4(t, j) || is_start3(t, j) {
            let ns = if is_start4(t, j) {
                j + 4
            } else {
                j + 3
            };
            if ns < t.len() {
                assert(u[p.len() + ns] == t[ns]);
            }
            if ns + 1 < t.len() {
                lemma_shift_keyframe(p, t, ns + 1);
            }
        } else {
            lemma_shift_keyframe(p, t, j + 1);
        }
    }
}

proof fn lemma_keyframe_skips_nal(n: Seq<u8>, t: Seq<u8>, j: int)
    requires
        wf_nal(n),
        follows_nal(t),
        0 <= j <= n.len(),
    ensures
        spec_keyframe_from(n + t, j) == spec_keyframe_from(t, 0),
    decreases n.len() - j,
{
    if j == n.len() {
        lemma_shift_keyframe(n, t, 0);
    } else {
        lemma_no_start_code_inside(n, t, j);
        lemma_keyframe_skips_nal(n, t, j + 1);
    }
}

/// Some NAL unit of the list is an IDR slice (type 5).
pub open spec fn has_idr(nals: Seq<Seq<u8>>) -> bool {
    exists|k: int| 0 <= k < nals.len() && #[trigger] spec_nal_type(nals[k]) == Some(5u8)
}

proof fn lemma_has_idr_cons(n: Seq<u8>, rest: Seq<Seq<u8>>)
    ensures
        has_idr(seq![n] + rest) == (spec_nal_type(n) == Some(5u8) || has_idr(rest)),
{
    let all = seq![n] + rest;
    if spec_nal_type(n) == Some(5u8) {
        assert(spec_nal_type(all[0]) == Some(5u8));
    }
    if has_idr(rest) {
        let k = choose|k: int| 0 <= k < rest.len() && #[trigger] spec_nal_type(rest[k]) == Some(5u8);
        assert(spec_nal_type(all[k + 1]) == Some(5u8));
    }
    if has_idr(all) {
        let k = choose|k: int| 0 <= k < all.len() && #[trigger] spec_nal_type(all[k]) == Some(5u8);
        if k > 0 {
            assert(spec_nal_type(rest[k - 1]) == Some(5u8));
        }
    }
}

/// The keyframe scan of an Annex-B stream built from well-formed NAL payloads, each behind a three-
/// or four-byte start code, finds an IDR slice exactly when one of the payloads is an IDR slice.
pub proof fn law_keyframe_of_mixed_join(nals: Seq<Seq<u8>>, long: Seq<bool>)
    requires
        long.len() == nals.len(),
        forall|k: int| 0 <= k < nals.len() ==> #[trigger] wf_nal(nals[k]),
    ensures
        spec_keyframe_from(spec_annex_b_join_mixed(nals, long), 0) == has_idr(nals),
    decreases nals.len(),
{
    let s = spec_annex_b_join_mixed(nals, long);
    if nals.len() == 0 {
        assert(s =~= Seq::<u8>::empty());
    } else {
        let n0 = nals[0];
        let rest = nals.drop_first();
        let lrest = long.drop_first();
        assert(forall|k: int| 0 <= k < rest.len() ==> rest[k] == nals[k + 1]);
        assert(wf_nal(n0));
        law_keyframe_of_mixed_join(rest, lrest);
        let rs = spec_annex_b_join_mixed(rest, lrest);
        let sc = start_code(long[0]);
        let l = sc.len() as int;
        lemma_mixed_join_head(rest, lrest);
        lemma_mixed_join_head(nals, long);
        assert(s =~= sc + (n0 + rs));
        assert(s[l] == n0[0]);
        lemma_shift_keyframe(sc, n0 + rs, 1);
        lemma_keyframe_skips_nal(n0, rs, 1);
        assert(spec_keyframe_from(s, l + 1) == spec_keyframe_from(rs, 0));
        assert(l < s.len());
        if long[0] {
            assert(is_start4(s, 0));
        } else {
            assert(is_start3(s, 0) && !is_start4(s, 0));
        }
        assert(spec_keyframe_from(s, 0) == ((s[l] & 0x1f == 5) || (l + 1 < s.len()
            && spec_keyframe_from(s, l + 1))));
        if l + 1 >= s.len() {
            assert(!spec_keyframe_from(s, l + 1));
        }
        assert(spec_nal_type(n0) == Some(s[l] & 0x1f));
        lemma_has_idr_cons(n0, rest);
        assert(seq![n0] + rest =~= nals);
    }
}

/// The keyframe scan of an Annex-B stream built from well-formed NAL payloads finds an IDR slice
/// exactly when one of the payloads is an IDR slice.
pub proof fn law_keyframe_of_annex_b_join(nals: Seq<Seq<u8>>)
    requires
        forall|k: int| 0 <= k < nals.len() ==> #[trigger] wf_nal(nals[k]),
    ensures
        spec_keyframe_from(spec_annex_b_join(nals), 0) == has_idr(nals),
{
    lemma_join_is_mixed(nals);
    law_keyframe_of_mixed_join(nals, Seq::new(nals.len(), |_k: int| true));
}

/// No NAL unit is empty: no start code begins right where another one ends.
pub open spec fn no_empty_nal(s: Seq<u8>) -> bool {
    forall|p: int|
        (#[trigger] spec_start_code_len(s, p)) is Some ==> spec_start_code_len(
            s,
            p + spec_start_code_len(s, p).unwrap(),
        ) is None
}

proof fn lemma_keyframe_over_payload(s: Seq<u8>, q: int, e: int)
    requires
        0 <= q <= e <= s.len(),
        forall|x: int| q <= x < e ==> !is_start4(s, x) && !is_start3(s, x),
    ensures
        spec_keyframe_from(s, q) == spec_keyframe_from(s, e),
    decreases e - q,
{
    if q < e {
        lemma_keyframe_over_payload(s, q + 1, e);
    }
}

proof fn lemma_keyframe_from_nal_units(s: Seq<u8>, i: int)
    requires
        no_empty_nal(s),
        0 <= i,
    ensures
        spec_keyframe_from(s, i) == has_idr(spec_nal_units_from(s, i)),
    decreases s.len() - i,
{
    if i < s.len() {
        match spec_start_code_len(s, i) {
            None => {
                lemma_keyframe_from_nal_units(s, i + 1);
            },
            Some(sc) => {
                let from = i + sc;
                lemma_next_start_code_bounds(s, from);
                let to = spec_nal_end(s, from);
                assert(spec_start_code_len(s, from) is None);
                if from < s.len() {
                    assert(from < to);
                    assert forall|x: int| from + 1 <= x < to implies !is_start4(s, x) && !is_start3(
                        s,
                        x,
                    ) by {
                        if x + 2 < s.len() {
                            lemma_no_start_code_before_end(s, from, x);
                        }
                    }
                    if from + 1 < s.len() {
                        lemma_keyframe_over_payload(s, from + 1, to);
                    }
                    lemma_keyframe_from_nal_units(s, to);
                    let n = s.subrange(from, to);
                    assert(spec_nal_type(n) == Some(s[from] & 0x1f));
                    lemma_has_idr_cons(n, spec_nal_units_from(s, to));
                } else {
                    assert(spec_nal_units_from(s, to) =~= Seq::<Seq<u8>>::empty());
                    assert(spec_nal_units_from(s, i) =~= Seq::<Seq<u8>>::empty());
                }
            },
        }
    } else {
        assert(spec_nal_units_from(s, i) =~= Seq::<Seq<u8>>::empty());
    }
}

/// In a stream without empty NAL units, the keyframe scan finds an IDR slice exactly when one of
/// the NAL units that splitting yields is an IDR slice.
pub proof fn law_keyframe_of_nal_units(s: Seq<u8>)
    requires
        no_empty_nal(s),
    ensures
        spec_keyframe_from(s, 0) == has_idr(spec_nal_units(s)),
{
    lemma_keyframe_from_nal_units(s, 0);
}

/// Non-empty and free of the `00 00 01` start-code prefix.
pub open spec fn clean_payload(n: Seq<u8>) -> bool {
    &&& n.len() > 0
    &&& forall|j: int| !is_start3(n, j)
}

proof fn lemma_no_start_code_before_end(s: Seq<u8>, from: int, q: int)
    requires
        0 <= from <= q,
        q < spec_nal_end(s, from),
        q + 2 < s.len(),
    ensures
        spec_start_code_len(s, q) is None,
    decreases s.len() - from,
{
    if from + 2 < s.len() && spec_start_code_len(s, from) is None && from < q {
        lemma_no_start_code_before_end(s, from + 1, q);
    }
}

proof fn lemma_nal_units_from_clean(s: Seq<u8>, i: int)
    ensures
        forall|k: int|
            0 <= k < spec_nal_units_from(s, i).len() ==> #[trigger] clean_payload(
                spec_nal_units_from(s, i)[k],
            ),
    decreases s.len() - i,
{
    if 0 <= i < s.len() {
        match spec_start_code_len(s, i) {
            None => {
                lemma_nal_units_from_clean(s, i + 1);
                assert(spec_nal_units_from(s, i) == spec_nal_units_from(s, i + 1));
            },
            Some(sc) => {
                let from = i + sc;
                lemma_next_start_code_bounds(s, from);
                let to = spec_nal_end(s, from);
                lemma_nal_units_from_clean(s, to);
                if from >= to {
                    assert(spec_nal_units_from(s, i) == spec_nal_units_from(s, to));
                }
                if from < to {
                    let n = s.subrange(from, to);
                    assert forall|j: int| !is_start3(n, j) by {
                        if is_start3(n, j) {
                            assert(s[from + j] == n[j] && s[from + j + 1] == n[j + 1] && s[from
                                + j + 2] == n[j + 2]);
                            assert(is_start3(s, from + j));
                            lemma_no_start_code_before_end(s, from, from + j);
                        }
                    }
                    let rest = spec_nal_units_from(s, to);
                    assert(spec_nal_units_from(s, i) == seq![n] + rest);
                    assert forall|k: int|
                        0 <= k < spec_nal_units_from(s, i).len() implies #[trigger] clean_payload(
                        spec_nal_units_from(s, i)[k],
                    ) by {
                        if k > 0 {
                            assert(spec_nal_units_from(s, i)[k] == rest[k - 1]);
                        }
                    }
                }
            },
        }
    }
}

/// Every NAL payload split out of an Annex-B buffer is non-empty and holds no start-code prefix.
pub proof fn law_nal_units_are_clean(s: Seq<u8>)
    ensures
        forall|k: int|
            0 <= k < spec_nal_units(s).len() ==> #[trigger] clean_payload(spec_nal_units(s)[k]),
{
    lemma_nal_units_from_clean(s, 0);
}

/// `s` holds a start code (`00 00 00 01` or `00 00 01`) somewhere.
pub open spec fn spec_has_start_code(s: Seq<u8>) -> bool {
    exists|i: int| #![trigger is_start4(s, i)] #![trigger is_start3(s, i)] is_start4(s, i) || is_start3(s, i)
}

/// Big-endian 32-bit value at `s[i..i + 4]`.
pub open spec fn be32_at(s: Seq<u8>, i: int) -> int {
    s[i] * 0x1000000 + s[i + 1] * 0x10000 + s[i + 2] * 0x100 + s[i + 3]
}

/// Length-prefixed NAL units read from `i`, each re-emitted behind a four-byte start code.
/// A zero length is skipped; a length that runs past the end stops the scan.
pub open spec fn spec_length_prefixed_from(s: Seq<u8>, i: int) -> Seq<u8>
    decreases s.len() - i,
{
    if i < 0 || i + 4 > s.len() {
        Seq::empty()
    } else {
        let len = be32_at(s, i);
        let j = i + 4;
        if len == 0 {
            spec_length_prefixed_from(s, j)
        } else if j + len > s.len() {
            Seq::empty()
        } else {
            start_code4() + s.subrange(j, j + len) + spec_length_prefixed_from(s, j + len)
        }
    }
}

/// Length-prefixed (AVCC-style) access unit to Annex-B; start-coded input passes through, and so
/// does input from which no NAL unit could be read.
pub open spec fn spec_compressed_to_annex_b(s: Seq<u8>) -> Seq<u8> {
    if spec_has_start_code(s) {
        s
    } else {
        let out = spec_length_prefixed_from(s, 0);
        if out.len() == 0 && s.len() > 0 {
            s
        } else {
            out
        }
    }
}

/// Scanning from `i`: some start code found by the scan is followed by a NAL header of type 5 (IDR).
/// After each start code the scan resumes one byte past the header position.
pub open spec fn spec_keyframe_from(s: Seq<u8>, i: int) -> bool
    decreases s.len() - i,
{
    if i < 0 || i >= s.len() {
        false
    } else if is_start4(s, i) || is_start3(s, i) {
        let nal_start = if is_start4(s, i) {
            i + 4
        } else {
            i + 3
        };
        (nal_start < s.len() && s[nal_start] & 0x1f == 5) || (nal_start + 1 < s.len()
            && spec_keyframe_from(s, nal_start + 1))
    } else {
        spec_keyframe_from(s, i + 1)
    }
}

/// The Annex-B stream of the NAL units of all present layers, in order, each behind a four-byte
/// start code; absent layers and absent NAL units are skipped.
pub open spec fn spec_annex_b_from_layers(layers: Seq<Option<Seq<Option<Seq<u8>>>>>) -> Seq<u8>
    decreases layers.len(),
{
    if layers.len() == 0 {
        Seq::empty()
    } else {
        spec_annex_b_from_layers(layers.drop_last()) + match layers.last() {
            Some(nals) => spec_annex_b_join(present_nals(nals)),
            None => Seq::empty(),
        }
    }
}

/// The present NAL units of a layer, in order.
pub open spec fn present_nals(nals: Seq<Option<Seq<u8>>>) -> Seq<Seq<u8>>
    decreases nals.len(),
{
    if nals.len() == 0 {
        Seq::empty()
    } else {
        present_nals(nals.drop_last()) + match nals.last() {
            Some(n) => seq![n],
            None => Seq::empty(),
        }
    }
}

/// Every present NAL unit of every present layer, in order.
pub open spec fn layer_nals(layers: Seq<Option<Seq<Option<Seq<u8>>>>>) -> Seq<Seq<u8>>
    decreases layers.len(),
{
    if layers.len() == 0 {
        Seq::empty()
    } else {
        layer_nals(layers.drop_last()) + match layers.last() {
            Some(nals) => nals.filter_map(|o: Option<Seq<u8>>| o),
            None => Seq::empty(),
        }
    }
}

proof fn lemma_annex_b_join_append(a: Seq<Seq<u8>>, b: Seq<Seq<u8>>)
    ensures
        spec_annex_b_join(a + b) == spec_annex_b_join(a) + spec_annex_b_join(b),
    decreases b.len(),
{
    if b.len() == 0 {
        assert(a + b =~= a);
        assert(spec_annex_b_join(a) + spec_annex_b_join(b) =~= spec_annex_b_join(a));
    } else {
        lemma_annex_b_join_append(a, b.drop_last());
        assert((a + b).drop_last() =~= a + b.drop_last());
        assert((a + b).last() == b.last());
        assert(spec_annex_b_join(a + b) =~= spec_annex_b_join(a) + spec_annex_b_join(b));
    }
}

proof fn lemma_present_nals_are_the_present_units(nals: Seq<Option<Seq<u8>>>)
    ensures
        present_nals(nals) == nals.filter_map(|o: Option<Seq<u8>>| o),
    decreases nals.len(),
{
    if nals.len() > 0 {
        lemma_present_nals_are_the_present_units(nals.drop_last());
    }
}

/// The Annex-B packet of an encoded picture is every present NAL unit of every present layer,
/// in order, each behind a four-byte start code: no layer and no unit is left out.
pub proof fn law_annex_b_from_layers_joins_every_unit(layers: Seq<Option<Seq<Option<Seq<u8>>>>>)
    ensures
        spec_annex_b_from_layers(layers) == spec_annex_b_join(layer_nals(layers)),
    decreases layers.len(),
{
    if layers.len() == 0 {
        assert(spec_annex_b_join(layer_nals(layers)) =~= Seq::<u8>::empty());
    } else {
        law_annex_b_from_layers_joins_every_unit(layers.drop_last());
        match layers.last() {
            Some(nals) => {
                lemma_present_nals_are_the_present_units(nals);
                lemma_annex_b_join_append(
                    layer_nals(layers.drop_last()),
                    nals.filter_map(|o: Option<Seq<u8>>| o),
                );
            },
            None => {
                assert(layer_nals(layers) =~= layer_nals(layers.drop_last()));
                assert(spec_annex_b_from_layers(layers) =~= spec_annex_b_from_layers(
                    layers.drop_last(),
                ));
            },
        }
    }
}

/// Splitting the Annex-B packet of an encoded picture gives back every present NAL unit of every
/// present layer, in order (for well-formed units).
pub proof fn law_annex_b_from_layers_reads_back(layers: Seq<Option<Seq<Option<Seq<u8>>>>>)
    requires
        forall|k: int| 0 <= k < layer_nals(layers).len() ==> #[trigger] wf_nal(layer_nals(layers)[k]),
    ensures
        spec_nal_units(spec_annex_b_from_layers(layers)) == layer_nals(layers),
{
    law_annex_b_from_layers_joins_every_unit(layers);
    law_nal_units_of_annex_b_join(layer_nals(layers));
}

fn has_start_code(data: &[u8]) -> (r: bool)
    ensures
        r == spec_has_start_code(data@),
{
    let mut i: usize = 0;
    while i < data.len()
        invariant
            i <= data.len(),
            forall|q: int| 0 <= q < i ==> !(#[trigger] is_start4(data@, q) || is_start3(data@, q)),
        decreases data.len() - i,
    {
        if start_code_len_at(data, i).is_some() {
            assert(is_start4(data@, i as int) || is_start3(data@, i as int));
            return true;
        }
        i += 1;
    }
    assert forall|q: int| !(#[trigger] is_start4(data@, q) || is_start3(data@, q)) by {
        if 0 <= q < data.len() {
        }
    }
    false
}

/// Convert length-prefixed (AVCC-style) access units to Annex-B; pass-through if already start-coded.
pub fn compressed_to_annex_b(data: &[u8]) -> (out: Vec<u8>)
    ensures
        out@ == spec_compressed_to_annex_b(data@),
{
    if has_start_code(data) {
        return vstd::slice::slice_to_vec(data);
    }
    let mut out: Vec<u8> = Vec::new();
    let mut i: usize = 0;
    while i <= data.len() && data.len() - i >= 4
        invariant
            i <= data.len(),
            out@ + spec_length_prefixed_from(data@, i as int) == spec_length_prefixed_from(
                data@,
                0,
            ),
        decreases data.len() - i,
    {
        let len: usize = (data[i] as usize) * 0x1000000 + (data[i + 1] as usize) * 0x10000
            + (data[i + 2] as usize) * 0x100 + (data[i + 3] as usize);
        assert(len == be32_at(data@, i as int));
        i += 4;
        if len == 0 {
            continue;
        }
        if len > data.len() - i {
            i = data.len();
            continue;
        }
        let ghost before = out@;
        out.push(0);
        out.push(0);
        out.push(0);
        out.push(1);
        extend_bytes(&mut out, &data[i..i + len]);
        assert(out@ =~= before + start_code4() + data@.subrange(i as int, (i + len) as int));
        i += len;
    }
    if out.len() == 0 && data.len() > 0 {
        vstd::slice::slice_to_vec(data)
    } else {
        out
    }
}

/// Whether some NAL found by scanning the Annex-B stream is an IDR slice (type 5).
pub fn annex_b_keyframe(annex_b: &[u8]) -> (r: bool)
    ensures
        r == spec_keyframe_from(annex_b@, 0),
{
    let mut i: usize = 0;
    while i < annex_b.len()
        invariant
            spec_keyframe_from(annex_b@, 0) == spec_keyframe_from(annex_b@, i as int),
        decreases annex_b.len() - i,
    {
        let nal_start = match start_code_len_at(annex_b, i) {
            Some(sc) => i + sc,
            None => {
                i += 1;
                continue;
            },
        };
        if nal_start >= annex_b.len() {
            return false;
        }
        let h = annex_b[nal_start];
        let nal_type = h & 0x1f;
        if nal_type == 5 {
            return true;
        }
        i = nal_start + 1;
    }
    false
}

/// Concatenate the NAL units of all present layers with 4-byte Annex-B start codes (`00 00 00 01`).
pub fn annex_b_from_nal_layers(layers: &Vec<Option<Vec<Option<Vec<u8>>>>>) -> (out: Vec<u8>)
    ensures
        out@ == spec_annex_b_from_layers(layers.deep_view()),
{
    let mut out: Vec<u8> = Vec::new();
    let mut li: usize = 0;
    while li < layers.len()
        invariant
            li <= layers.len(),
            out@ == spec_annex_b_from_layers(layers.deep_view().subrange(0, li as int)),
        decreases layers.len() - li,
    {
        let ghost before = out@;
        match &layers[li] {
            None => {},
            Some(nals) => {
                let mut ni: usize = 0;
                while ni < nals.len()
                    invariant
                        ni <= nals.len(),
                        li < layers.len(),
                        layers.deep_view()[li as int] == Some(nals.deep_view()),
                        out@ == before + spec_annex_b_join(
                            present_nals(nals.deep_view().subrange(0, ni as int)),
                        ),
                    decreases nals.len() - ni,
                {
                    let ghost mid = out@;
                    let ghost prev = present_nals(nals.deep_view().subrange(0, ni as int));
                    let ghost pre = nals.deep_view().subrange(0, ni + 1);
                    assert(pre.drop_last() =~= nals.deep_view().subrange(0, ni as int));
                    match &nals[ni] {
                        None => {
                            assert(present_nals(pre) =~= prev);
                        },
                        Some(nal) => {
                            assert(pre.last() == Some(nal@));
                            assert(present_nals(pre) =~= prev + seq![nal@]);
                            assert((prev + seq![nal@]).drop_last() =~= prev);
                            out.push(0);
                            out.push(0);
                            out.push(0);
                            out.push(1);
                            extend_bytes(&mut out, nal.as_slice());
                            assert(out@ =~= mid + start_code4() + nal@);
                        },
                    }
                    ni += 1;
                }
                assert(nals.deep_view().subrange(0, nals.len() as int) =~= nals.deep_view());
            },
        }
        li += 1;
        let ghost pre = layers.deep_view().subrange(0, li as int);
        assert(pre.drop_last() =~= layers.deep_view().subrange(0, li - 1));
    }
    assert(layers.deep_view().subrange(0, layers.len() as int) =~= layers.deep_view());
    out
}

proof fn lemma_avcc_front(nals: Seq<Seq<u8>>)
    requires
        nals.len() > 0,
    ensures
        spec_avcc_sample(nals) == be32(nals[0].len() as u32) + nals[0] + spec_avcc_sample(
            nals.drop_first(),
        ),
    decreases nals.len(),
{
    if nals.len() == 1 {
        assert(spec_avcc_sample(nals.drop_last()) =~= Seq::<u8>::empty());
        assert(spec_avcc_sample(nals.drop_first()) =~= Seq::<u8>::empty());
        assert(spec_avcc_sample(nals) =~= be32(nals[0].len() as u32) + nals[0]);
    } else {
        let dl = nals.drop_last();
        lemma_avcc_front(dl);
        assert(nals.drop_first().drop_last() =~= dl.drop_first());
        assert(nals.drop_first().last() == nals.last());
        assert(spec_avcc_sample(nals) =~= be32(nals[0].len() as u32) + nals[0] + spec_avcc_sample(
            nals.drop_first(),
        ));
    }
}

proof fn lemma_shift_length_prefixed(p: Seq<u8>, t: Seq<u8>, j: int)
    requires
        0 <= j,
    ensures
        spec_length_prefixed_from(p + t, p.len() + j) == spec_length_prefixed_from(t, j),
    decreases t.len() - j,
{
    let u = p + t;
    let k = p.len() + j;
    if j + 4 <= t.len() {
        assert(u[k] == t[j] && u[k + 1] == t[j + 1] && u[k + 2] == t[j + 2] && u[k + 3] == t[j
            + 3]);
        assert(be32_at(u, k) == be32_at(t, j));
        let len = be32_at(t, j);
        if len == 0 {
            lemma_shift_length_prefixed(p, t, j + 4);
        } else if j + 4 + len <= t.len() {
            lemma_shift_length_prefixed(p, t, j + 4 + len);
            assert(u.subrange(k + 4, k + 4 + len) =~= t.subrange(j + 4, j + 4 + len));
        }
    }
}

proof fn lemma_be32_at_be32(x: u32, rest: Seq<u8>)
    ensures
        be32_at(be32(x) + rest, 0) == x,
{
    let s = be32(x) + rest;
    assert(s[0] == (x >> 24u32) as u8 && s[1] == (x >> 16u32) as u8 && s[2] == (x >> 8u32) as u8
        && s[3] == x as u8);
    let b0 = (x >> 24u32) as u8;
    let b1 = (x >> 16u32) as u8;
    let b2 = (x >> 8u32) as u8;
    let b3 = x as u8;
    assert((b0 as u32) * 0x1000000 + (b1 as u32) * 0x10000 + (b2 as u32) * 0x100 + (b3 as u32)
        == x) by (bit_vector)
        requires
            b0 == (x >> 24u32) as u8,
            b1 == (x >> 16u32) as u8,
            b2 == (x >> 8u32) as u8,
            b3 == x as u8,
    ;
}

/// Non-empty payloads whose lengths fit the 32-bit AVCC length field.
pub open spec fn avcc_payloads(nals: Seq<Seq<u8>>) -> bool {
    forall|k: int| 0 <= k < nals.len() ==> 0 < #[trigger] nals[k].len() <= u32::MAX
}

/// Reading the length prefixes of an AVCC sample back gives the Annex-B stream of its units.
pub proof fn law_avcc_length_prefixes_read_back(nals: Seq<Seq<u8>>)
    requires
        avcc_payloads(nals),
    ensures
        spec_length_prefixed_from(spec_avcc_sample(nals), 0) == spec_annex_b_join(nals),
    decreases nals.len(),
{
    if nals.len() == 0 {
        assert(spec_avcc_sample(nals) =~= Seq::<u8>::empty());
        assert(spec_annex_b_join(nals) =~= Seq::<u8>::empty());
    } else {
        let n0 = nals[0];
        let rest = nals.drop_first();
        assert(forall|k: int| 0 <= k < rest.len() ==> rest[k] == nals[k + 1]);
        assert(0 < n0.len() <= u32::MAX);
        law_avcc_length_prefixes_read_back(rest);
        lemma_avcc_front(nals);
        lemma_annex_b_join_front(nals);
        let ra = spec_avcc_sample(rest);
        let hdr = be32(n0.len() as u32);
        let s = spec_avcc_sample(nals);
        assert(s =~= hdr + (n0 + ra));
        lemma_be32_at_be32(n0.len() as u32, n0 + ra);
        assert(be32_at(s, 0) == n0.len());
        assert(s =~= (hdr + n0) + ra);
        lemma_shift_length_prefixed(hdr + n0, ra, 0);
        assert(s.subrange(4, 4 + n0.len() as int) =~= n0);
        assert(spec_length_prefixed_from(s, 0) =~= start_code4() + n0 + spec_annex_b_join(rest));
    }
}

/// Converting an AVCC sample of non-empty NAL payloads back to Annex-B gives the start-coded
/// stream of the same payloads, provided the sample holds no start-code pattern (otherwise the
/// conversion passes it through untouched).
pub proof fn law_avcc_to_annex_b(nals: Seq<Seq<u8>>)
    requires
        avcc_payloads(nals),
        !spec_has_start_code(spec_avcc_sample(nals)),
    ensures
        spec_compressed_to_annex_b(spec_avcc_sample(nals)) == spec_annex_b_join(nals),
{
    law_avcc_length_prefixes_read_back(nals);
    if nals.len() > 0 {
        lemma_annex_b_join_front(nals);
        assert(spec_annex_b_join(nals).len() > 0);
    } else {
        assert(spec_avcc_sample(nals) =~= Seq::<u8>::empty());
    }
}

/// Appends `src` to `dst`.
pub fn extend_bytes(dst: &mut Vec<u8>, src: &[u8])
    ensures
        final(dst)@ == old(dst)@ + src@,
{
    let mut k: usize = 0;
    while k < src.len()
        invariant
            k <= src.len(),
            dst@ == old(dst)@ + src@.subrange(0, k as int),
        decreases src.len() - k,
    {
        dst.push(src[k]);
        k += 1;
        assert(dst@ =~= old(dst)@ + src@.subrange(0, k as int));
    }
    assert(src@.subrange(0, src@.len() as int) =~= src@);
}

/// Start code length at `i`, without arithmetic that could overflow.
fn start_code_len_at(buf: &[u8], i: usize) -> (r: Option<usize>)
    ensures
        r matches Some(n) ==> spec_start_code_len(buf@, i as int) == Some(n as nat),
        r is None ==> spec_start_code_len(buf@, i as int) is None,
{
    let n = buf.len();
    if i <= n && n - i >= 4 && buf[i] == 0 && buf[i + 1] == 0 && buf[i + 2] == 0 && buf[i + 3]
        == 1 {
        return Some(4);
    }
    if i <= n && n - i >= 3 && buf[i] == 0 && buf[i + 1] == 0 && buf[i + 2] == 1 {
        return Some(3);
    }
    None
}

/// Length of start code at `i` (`00 00 01` or `00 00 00 01`), or `None`.
pub fn start_code_len(buf: &[u8], i: usize) -> (r: Option<usize>)
    ensures
        r matches Some(n) ==> spec_start_code_len(buf@, i as int) == Some(n as nat),
        r is None ==> spec_start_code_len(buf@, i as int) is None,
{
    start_code_len_at(buf, i)
}

/// Position of the first start code at or after `search_from`.
fn next_start_code(buf: &[u8], search_from: usize) -> (r: Option<usize>)
    ensures
        r matches Some(p) ==> spec_next_start_code(buf@, search_from as int) == Some(p as int),
        r is None ==> spec_next_start_code(buf@, search_from as int) is None,
{
    let mut i = search_from;
    while i < buf.len() && buf.len() - i > 2
        invariant
            search_from <= i,
            spec_next_start_code(buf@, search_from as int) == spec_next_start_code(buf@, i as int),
        decreases buf.len() - i,
    {
        if start_code_len_at(buf, i).is_some() {
            return Some(i);
        }
        i += 1;
    }
    None
}

/// Split Annex-B into individual NAL RBSP blobs (no start codes).
pub fn nal_units(buf: &[u8]) -> (out: Vec<Vec<u8>>)
    ensures
        out.deep_view() == spec_nal_units(buf@),
{
    let mut out: Vec<Vec<u8>> = Vec::new();
    let mut i: usize = 0;
    while i < buf.len()
        invariant
            i <= buf.len(),
            out.deep_view() + spec_nal_units_from(buf@, i as int) == spec_nal_units(buf@),
        decreases buf.len() - i,
    {
        match start_code_len_at(buf, i) {
            None => {
                i += 1;
            },
            Some(sc) => {
                let nal_from = i + sc;
                let nal_to = match next_start_code(buf, nal_from) {
                    Some(p) => p,
                    None => buf.len(),
                };
                proof {
                    lemma_next_start_code_bounds(buf@, nal_from as int);
                }
                let ghost before = out.deep_view();
                if nal_from < nal_to {
                    let nal = vstd::slice::slice_to_vec(&buf[nal_from..nal_to]);
                    assert(nal.deep_view() =~= nal@);
                    out.push(nal);
                    assert(out.deep_view() =~= before + seq![buf@.subrange(
                        nal_from as int,
                        nal_to as int,
                    )]);
                }
                i = nal_to;
            },
        }
    }
    out
}

/// NAL unit type (low five bits of the first byte), or `None` for an empty NAL.
pub fn nal_type(nal: &[u8]) -> (r: Option<u8>)
    ensures
        r == spec_nal_type(nal@),
{
    if nal.len() == 0 {
        None
    } else {
        Some(nal[0] & 0x1f)
    }
}

fn push_be32(v: &mut Vec<u8>, x: u32)
    ensures
        final(v)@ == old(v)@ + be32(x),
{
    v.push((x >> 24u32) as u8);
    v.push((x >> 16u32) as u8);
    v.push((x >> 8u32) as u8);
    v.push(x as u8);
    assert(v@ =~= old(v)@ + be32(x));
}

/// AVCC sample: each NAL prefixed with 4-byte big-endian length (no start codes).
pub fn nal_units_to_avcc_sample(nals: &[Vec<u8>]) -> (v: Vec<u8>)
    ensures
        v@ == spec_avcc_sample(nals.deep_view()),
{
    let mut v: Vec<u8> = Vec::new();
    let mut k: usize = 0;
    while k < nals.len()
        invariant
            k <= nals.len(),
            v@ == spec_avcc_sample(nals.deep_view().subrange(0, k as int)),
        decreases nals.len() - k,
    {
        let nal = &nals[k];
        let len = nal.len() as u32;
        push_be32(&mut v, len);
        extend_bytes(&mut v, nal.as_slice());
        k += 1;
        assert(nals.deep_view().subrange(0, k as int).drop_last() =~= nals.deep_view().subrange(
            0,
            k - 1,
        ));
    }
    assert(nals.deep_view().subrange(0, nals.len() as int) =~= nals.deep_view());
    v
}

} // verus!
