//! The output path resolver: derives the temporary working name and the
//! final destination name for a received file, both collision-avoided by a
//! timestamp suffix when a same-named entry already exists.
//!
//! Paths and filenames are byte strings, as they travel on the wire and as
//! the filesystem stores them.

use vstd::prelude::*;

use crate::codec::append_bytes;
use crate::codec::append_range;

verus! {

/// The path separator `/`.
pub const SLASH: u8 = 47;

/// The byte `.`.
pub const DOT: u8 = 46;

/// The byte `_`, which introduces a timestamp suffix.
pub const UNDERSCORE: u8 = 95;

/// The byte `d`.
pub const LETTER_D: u8 = 100;

/// The byte `a`.
pub const LETTER_A: u8 = 97;

/// The byte `t`.
pub const LETTER_T: u8 = 116;

/// The `.dat` ending that marks a temporary working file.
pub open spec fn dat_suffix() -> Seq<u8> {
    seq![DOT, LETTER_D, LETTER_A, LETTER_T]
}

/// The decimal digits of `n`, most significant first, without leading zeros.
pub open spec fn dec_digits(n: nat) -> Seq<u8>
    decreases n,
{
    if n < 10 {
        seq![(48 + n) as u8]
    } else {
        dec_digits(n / 10).push((48 + n % 10) as u8)
    }
}

pub proof fn lemma_dec_digits_len(n: nat)
    ensures
        dec_digits(n).len() >= 1,
        n < 10 ==> dec_digits(n).len() == 1,
        n >= 10 ==> dec_digits(n).len() >= 2,
    decreases n,
{
    if n >= 10 {
        lemma_dec_digits_len(n / 10);
    }
}

/// Every byte of a decimal rendering is an ASCII digit.
pub proof fn lemma_dec_digits_are_digits(n: nat)
    ensures
        forall|i: int| 0 <= i < dec_digits(n).len() ==> 48 <= #[trigger] dec_digits(n)[i] <= 57,
    decreases n,
{
    if n >= 10 {
        lemma_dec_digits_are_digits(n / 10);
    }
    assert forall|i: int| 0 <= i < dec_digits(n).len() implies 48 <= #[trigger] dec_digits(n)[i]
        <= 57 by {
        if n >= 10 && i < dec_digits(n).len() - 1 {
            assert(dec_digits(n)[i] == dec_digits(n / 10)[i]);
        }
    }
}

/// Distinct numbers have distinct decimal renderings.
pub proof fn lemma_dec_digits_injective(a: nat, b: nat)
    requires
        dec_digits(a) == dec_digits(b),
    ensures
        a == b,
    decreases a,
{
    lemma_dec_digits_len(a);
    lemma_dec_digits_len(b);
    if a < 10 && b < 10 {
        assert(dec_digits(a)[0] == (48 + a) as u8);
        assert(dec_digits(b)[0] == (48 + b) as u8);
        assert(48 + a < 256 && 48 + b < 256);
        assert(dec_digits(a)[0] == dec_digits(b)[0]);
    } else if a >= 10 && b >= 10 {
        assert(dec_digits(a).last() == (48 + a % 10) as u8);
        assert(dec_digits(b).last() == (48 + b % 10) as u8);
        assert(0 <= a % 10 < 10);
        assert(0 <= b % 10 < 10);
        assert(dec_digits(a).last() == dec_digits(b).last());
        assert(a % 10 == b % 10);
        assert(dec_digits(a).drop_last() =~= dec_digits(a / 10));
        assert(dec_digits(b).drop_last() =~= dec_digits(b / 10));
        assert(dec_digits(a / 10) == dec_digits(b / 10));
        lemma_dec_digits_injective(a / 10, b / 10);
        vstd::arithmetic::div_mod::lemma_fundamental_div_mod(a as int, 10);
        vstd::arithmetic::div_mod::lemma_fundamental_div_mod(b as int, 10);
    } else {
        assert(dec_digits(a).len() == dec_digits(b).len());
        assert(false);
    }
}

/// Renders `n` in decimal as ASCII bytes.
pub fn format_u64(n: u64) -> (r: Vec<u8>)
    ensures
        r@ == dec_digits(n as nat),
    decreases n,
{
    if n < 10 {
        let mut r: Vec<u8> = Vec::new();
        r.push(48 + n as u8);
        proof {
            assert(r@ =~= dec_digits(n as nat));
        }
        r
    } else {
        let mut r = format_u64(n / 10);
        r.push(48 + (n % 10) as u8);
        r
    }
}

/// `{dir}/{name}`.
pub open spec fn join_path(dir: Seq<u8>, name: Seq<u8>) -> Seq<u8> {
    dir + seq![SLASH] + name
}

/// Joins a directory and a filename with the path separator.
pub fn join(dir: &Vec<u8>, name: &Vec<u8>) -> (r: Vec<u8>)
    ensures
        r@ == join_path(dir@, name@),
{
    let mut r: Vec<u8> = Vec::new();
    append_bytes(&mut r, dir);
    r.push(SLASH);
    append_bytes(&mut r, name);
    proof {
        assert(r@ =~= join_path(dir@, name@));
    }
    r
}

/// The temporary working name for a received file: `{name}.dat`, or
/// `{name}_{ts}.dat` when the plain candidate is already taken.
pub open spec fn temp_name(name: Seq<u8>, taken: bool, ts: u64) -> Seq<u8> {
    if taken {
        name + seq![UNDERSCORE] + dec_digits(ts as nat) + dat_suffix()
    } else {
        name + dat_suffix()
    }
}

/// Builds the temporary working name. `taken` reports whether the plain
/// `{name}.dat` candidate already exists at its destination; `ts` is the
/// timestamp used to sidestep the collision.
pub fn temp_file_name(name: &Vec<u8>, taken: bool, ts: u64) -> (r: Vec<u8>)
    ensures
        r@ == temp_name(name@, taken, ts),
{
    let mut r: Vec<u8> = Vec::new();
    append_bytes(&mut r, name);
    if taken {
        r.push(UNDERSCORE);
        let digits = format_u64(ts);
        append_bytes(&mut r, &digits);
    }
    r.push(DOT);
    r.push(LETTER_D);
    r.push(LETTER_A);
    r.push(LETTER_T);
    proof {
        assert(r@ =~= temp_name(name@, taken, ts));
    }
    r
}

/// Index of the last `.` of `s` that can introduce an extension, or -1 when
/// `s` has no extension. A dot in first position (a hidden file) or a dot in
/// an empty or one-byte name introduces none.
pub open spec fn last_dot(s: Seq<u8>) -> int
    decreases s.len(),
{
    if s.len() <= 1 {
        -1
    } else if s.last() == DOT {
        s.len() - 1
    } else {
        last_dot(s.drop_last())
    }
}

pub proof fn lemma_last_dot_props(s: Seq<u8>)
    ensures
        -1 <= last_dot(s) < s.len(),
        last_dot(s) >= 0 ==> last_dot(s) >= 1 && s[last_dot(s)] == DOT,
    decreases s.len(),
{
    if s.len() > 1 && s.last() != DOT {
        lemma_last_dot_props(s.drop_last());
    }
}

/// Finds the dot that separates the extension, if any.
pub fn find_last_dot(name: &Vec<u8>) -> (r: Option<usize>)
    ensures
        match r {
            Some(i) => i as int == last_dot(name@),
            None => last_dot(name@) == -1,
        },
{
    let mut i: usize = name.len();
    proof {
        assert(name@.take(name@.len() as int) =~= name@);
    }
    while i > 1
        invariant
            i <= name@.len(),
            last_dot(name@) == last_dot(name@.take(i as int)),
        decreases i,
    {
        let j = i - 1;
        if name[j] == DOT {
            return Some(j);
        }
        proof {
            assert(name@.take(i as int).drop_last() =~= name@.take(i as int - 1));
        }
        i = j;
    }
    None
}

/// The name under which a fully received file is finally published:
/// the declared name itself, or, when that name is already taken in the
/// output directory, the name with `_{ts}` inserted before its extension
/// (appended at the end when there is no extension).
pub open spec fn resolved_final_name(name: Seq<u8>, taken: bool, ts: u64) -> Seq<u8> {
    if !taken {
        name
    } else if last_dot(name) >= 0 {
        let d = last_dot(name);
        name.take(d) + seq![UNDERSCORE] + dec_digits(ts as nat) + seq![DOT] + name.skip(d + 1)
    } else {
        name + seq![UNDERSCORE] + dec_digits(ts as nat)
    }
}

/// Builds the final destination name. `taken` reports whether a file of the
/// declared name already exists in the output directory.
pub fn final_file_name(name: &Vec<u8>, taken: bool, ts: u64) -> (r: Vec<u8>)
    ensures
        r@ == resolved_final_name(name@, taken, ts),
{
    let mut r: Vec<u8> = Vec::new();
    if !taken {
        append_bytes(&mut r, name);
        return r;
    }
    proof {
        lemma_last_dot_props(name@);
    }
    match find_last_dot(name) {
        Some(d) => {
            let len = name.len();
            proof {
                assert(d < len);
            }
            append_range(&mut r, name, 0, d);
            r.push(UNDERSCORE);
            let digits = format_u64(ts);
            append_bytes(&mut r, &digits);
            r.push(DOT);
            append_range(&mut r, name, d + 1, len);
            proof {
                assert(name@.subrange(0, d as int) =~= name@.take(d as int));
                assert(name@.subrange(d as int + 1, name@.len() as int) =~= name@.skip(
                    d as int + 1,
                ));
                assert(r@ =~= resolved_final_name(name@, taken, ts));
            }
        },
        None => {
            append_bytes(&mut r, name);
            r.push(UNDERSCORE);
            let digits = format_u64(ts);
            append_bytes(&mut r, &digits);
            proof {
                assert(r@ =~= resolved_final_name(name@, taken, ts));
            }
        },
    }
    r
}

/// Two equal wrappings around different middles force the middles equal.
proof fn lemma_seq_mid_injective(a: Seq<u8>, m1: Seq<u8>, m2: Seq<u8>, b: Seq<u8>)
    requires
        a + m1 + b == a + m2 + b,
    ensures
        m1 == m2,
{
    assert((a + m1 + b).len() == (a + m2 + b).len());
    assert((a + m1 + b).len() == a.len() + m1.len() + b.len());
    assert((a + m2 + b).len() == a.len() + m2.len() + b.len());
    assert(m1.len() == m2.len());
    assert forall|i: int| 0 <= i < m1.len() implies m1[i] == m2[i] by {
        assert((a + m1 + b)[a.len() + i] == m1[i]);
        assert((a + m2 + b)[a.len() + i] == m2[i]);
    }
    assert(m1 =~= m2);
}

/// A collision-avoided temporary name never equals the plain candidate it
/// replaces.
pub proof fn lemma_temp_name_fresh(name: Seq<u8>, ts: u64)
    ensures
        temp_name(name, true, ts) != temp_name(name, false, ts),
{
    lemma_dec_digits_len(ts as nat);
    if temp_name(name, true, ts) == temp_name(name, false, ts) {
        assert(temp_name(name, true, ts).len() == temp_name(name, false, ts).len());
    }
}

/// Distinct timestamps give distinct collision-avoided temporary names.
pub proof fn lemma_temp_name_distinct(name: Seq<u8>, ts1: u64, ts2: u64)
    requires
        ts1 != ts2,
    ensures
        temp_name(name, true, ts1) != temp_name(name, true, ts2),
{
    if temp_name(name, true, ts1) == temp_name(name, true, ts2) {
        lemma_seq_mid_injective(
            name + seq![UNDERSCORE],
            dec_digits(ts1 as nat),
            dec_digits(ts2 as nat),
            dat_suffix(),
        );
        lemma_dec_digits_injective(ts1 as nat, ts2 as nat);
    }
}

/// A collision-avoided final name never equals the name it replaces.
pub proof fn lemma_final_name_fresh(name: Seq<u8>, ts: u64)
    ensures
        resolved_final_name(name, true, ts) != name,
{
    lemma_dec_digits_len(ts as nat);
    lemma_last_dot_props(name);
    if resolved_final_name(name, true, ts) == name {
        assert(resolved_final_name(name, true, ts).len() == name.len());
    }
}

/// Distinct timestamps give distinct collision-avoided final names.
pub proof fn lemma_final_name_distinct(name: Seq<u8>, ts1: u64, ts2: u64)
    requires
        ts1 != ts2,
    ensures
        resolved_final_name(name, true, ts1) != resolved_final_name(name, true, ts2),
{
    lemma_last_dot_props(name);
    if resolved_final_name(name, true, ts1) == resolved_final_name(name, true, ts2) {
        let d = last_dot(name);
        if d >= 0 {
            let a = name.take(d) + seq![UNDERSCORE];
            let b = seq![DOT] + name.skip(d + 1);
            assert(a + dec_digits(ts1 as nat) + b =~= resolved_final_name(name, true, ts1));
            assert(a + dec_digits(ts2 as nat) + b =~= resolved_final_name(name, true, ts2));
            lemma_seq_mid_injective(a, dec_digits(ts1 as nat), dec_digits(ts2 as nat), b);
        } else {
            let a = name + seq![UNDERSCORE];
            let b = Seq::<u8>::empty();
            assert(a + dec_digits(ts1 as nat) + b =~= resolved_final_name(name, true, ts1));
            assert(a + dec_digits(ts2 as nat) + b =~= resolved_final_name(name, true, ts2));
            lemma_seq_mid_injective(a, dec_digits(ts1 as nat), dec_digits(ts2 as nat), b);
        }
        lemma_dec_digits_injective(ts1 as nat, ts2 as nat);
    }
}

/// Every temporary working name carries the `.dat` ending, so an observer
/// can always tell a working file from a finalized one of the same stem.
pub proof fn lemma_temp_name_dat_suffix(name: Seq<u8>, taken: bool, ts: u64)
    ensures
        temp_name(name, taken, ts).len() >= 4,
        temp_name(name, taken, ts).skip(temp_name(name, taken, ts).len() - 4) == dat_suffix(),
{
    let t = temp_name(name, taken, ts);
    if taken {
        lemma_dec_digits_len(ts as nat);
    }
    assert(t.skip(t.len() - 4) =~= dat_suffix());
}

/// The temporary working path and the final destination path never
/// coincide, whichever of the two collision checks fired: the rename that
/// publishes a received file always changes its name.
pub proof fn lemma_temp_final_distinct(
    name: Seq<u8>,
    t_taken: bool,
    ts1: u64,
    f_taken: bool,
    ts2: u64,
)
    ensures
        temp_name(name, t_taken, ts1) != resolved_final_name(name, f_taken, ts2),
{
    let t = temp_name(name, t_taken, ts1);
    let f = resolved_final_name(name, f_taken, ts2);
    lemma_dec_digits_len(ts1 as nat);
    lemma_dec_digits_len(ts2 as nat);
    lemma_last_dot_props(name);
    lemma_dec_digits_are_digits(ts2 as nat);
    if t == f {
        if !f_taken {
            // `f` is the bare name, but `t` is strictly longer.
            assert(t.len() > name.len());
        } else {
            let d = last_dot(name);
            if d >= 0 {
                // At index `d` the temporary name still shows the dot of
                // `name`, while the final name shows the underscore that
                // replaced it.
                assert(t[d] == name[d]);
                assert(f[d] == UNDERSCORE);
            } else if !t_taken {
                // At index `name.len()` the temporary name shows the dot of
                // `.dat`, the final name the underscore of its suffix.
                assert(t[name.len() as int] == DOT);
                assert(f[name.len() as int] == UNDERSCORE);
            } else {
                // Both carry `_`-suffixes; where the temporary name has the
                // dot of `.dat`, the final name still has a decimal digit.
                let p = name.len() + 1 + dec_digits(ts1 as nat).len();
                assert(t[p as int] == DOT);
                assert(f[p as int] == dec_digits(ts2 as nat)[p - name.len() - 1]);
            }
        }
    }
}

} // verus!
