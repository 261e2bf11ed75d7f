use vstd::prelude::*;

verus! {

/// The scalar value put in place of a code unit that cannot be decoded.
pub const REPLACEMENT: u32 = 0xFFFD;

pub open spec fn is_high_surrogate(u: u16) -> bool {
    0xD800 <= u < 0xDC00
}

pub open spec fn is_low_surrogate(u: u16) -> bool {
    0xDC00 <= u < 0xE000
}

/// The scalar value of a surrogate pair.
pub open spec fn pair_value(hi: u16, lo: u16) -> u32 {
    (0x10000 + (hi - 0xD800) * 0x400 + (lo - 0xDC00)) as u32
}

/// UTF-16 decoding, as scalar values: a well-formed surrogate pair gives one
/// value, any other surrogate gives the replacement character.
pub open spec fn utf16_scalars(s: Seq<u16>) -> Seq<u32>
    decreases s.len(),
{
    if s.len() == 0 {
        seq![]
    } else if !is_high_surrogate(s[0]) && !is_low_surrogate(s[0]) {
        seq![s[0] as u32] + utf16_scalars(s.drop_first())
    } else if is_high_surrogate(s[0]) && s.len() >= 2 && is_low_surrogate(s[1]) {
        seq![pair_value(s[0], s[1])] + utf16_scalars(s.subrange(2, s.len() as int))
    } else {
        seq![REPLACEMENT] + utf16_scalars(s.drop_first())
    }
}

/// The code units before the first zero unit (all of them if there is none).
pub open spec fn until_nul(s: Seq<u16>) -> Seq<u16>
    decreases s.len(),
{
    if s.len() == 0 || s[0] == 0 {
        seq![]
    } else {
        seq![s[0]] + until_nul(s.drop_first())
    }
}

/// The text held by a zero-terminated buffer of UTF-16 code units.
pub open spec fn buffer_text(s: Seq<u16>) -> Seq<u32> {
    utf16_scalars(until_nul(s))
}

/// The scalar values of a string's characters.
pub open spec fn scalars(s: Seq<char>) -> Seq<u32> {
    s.map_values(|c: char| c as u32)
}

/// Decoding splits at any point not just after a high surrogate.
pub proof fn lemma_scalars_append(a: Seq<u16>, b: Seq<u16>)
    requires
        a.len() == 0 || !is_high_surrogate(a.last()),
    ensures
        utf16_scalars(a + b) == utf16_scalars(a) + utf16_scalars(b),
    decreases a.len(),
{
    if a.len() == 0 {
        assert(a + b =~= b);
    } else if !is_high_surrogate(a[0]) && !is_low_surrogate(a[0]) {
        assert((a + b).drop_first() =~= a.drop_first() + b);
        lemma_scalars_append(a.drop_first(), b);
    } else if is_high_surrogate(a[0]) && a.len() >= 2 && is_low_surrogate(a[1]) {
        let a2 = a.subrange(2, a.len() as int);
        assert((a + b).subrange(2, (a + b).len() as int) =~= a2 + b);
        lemma_scalars_append(a2, b);
    } else {
        assert((a + b).drop_first() =~= a.drop_first() + b);
        lemma_scalars_append(a.drop_first(), b);
    }
}

/// Decoding stops at the first zero unit, whatever follows it.
pub proof fn lemma_text_stops_at_nul(a: Seq<u16>, rest: Seq<u16>)
    requires
        forall|i: int| 0 <= i < a.len() ==> a[i] != 0,
    ensures
        buffer_text(a + seq![0u16] + rest) == utf16_scalars(a),
{
    lemma_until_nul_prefix(a, seq![0u16] + rest);
    assert(a + seq![0u16] + rest =~= a + (seq![0u16] + rest));
    assert(until_nul(seq![0u16] + rest) =~= seq![]);
    assert(a + seq![] =~= a);
}

/// A surrogate that is not part of a pair decodes to the replacement
/// character, in its own place, and decoding goes on after it.
pub proof fn lemma_lone_surrogate_replaced(a: Seq<u16>, u: u16, rest: Seq<u16>)
    requires
        forall|i: int| 0 <= i < a.len() ==> a[i] != 0,
        a.len() == 0 || !is_high_surrogate(a.last()),
        is_high_surrogate(u) || is_low_surrogate(u),
        is_high_surrogate(u) ==> (rest.len() == 0 || !is_low_surrogate(rest[0])),
    ensures
        buffer_text(a + seq![u] + rest) == utf16_scalars(a) + seq![REPLACEMENT] + buffer_text(rest),
{
    let s = a + seq![u] + rest;
    assert(s =~= a + (seq![u] + rest));
    lemma_until_nul_prefix(a, seq![u] + rest);
    let t = until_nul(seq![u] + rest);
    assert((seq![u] + rest).drop_first() =~= rest);
    assert(t =~= seq![u] + until_nul(rest));
    lemma_scalars_append(a, t);
    assert(t.drop_first() =~= until_nul(rest));
    if is_high_surrogate(u) && t.len() >= 2 {
        lemma_until_nul_first(rest);
    }
    assert(utf16_scalars(a) + (seq![REPLACEMENT] + buffer_text(rest)) =~= utf16_scalars(a) + seq![
        REPLACEMENT,
    ] + buffer_text(rest));
}

proof fn lemma_until_nul_first(s: Seq<u16>)
    requires
        until_nul(s).len() > 0,
    ensures
        s.len() > 0 && until_nul(s)[0] == s[0],
{
}

proof fn lemma_until_nul_prefix(a: Seq<u16>, b: Seq<u16>)
    requires
        forall|i: int| 0 <= i < a.len() ==> a[i] != 0,
    ensures
        until_nul(a + b) == a + until_nul(b),
    decreases a.len(),
{
    if a.len() == 0 {
        assert(a + b =~= b);
        assert(a + until_nul(b) =~= until_nul(b));
    } else {
        assert((a + b).drop_first() =~= a.drop_first() + b);
        lemma_until_nul_prefix(a.drop_first(), b);
        assert(a =~= seq![a[0]] + a.drop_first());
        assert(seq![a[0]] + (a.drop_first() + until_nul(b)) =~= a + until_nul(b));
    }
}

} // verus!
