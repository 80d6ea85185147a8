//! Strings as sequences of characters.
use vstd::prelude::*;

verus! {

/// The characters with the Unicode property `White_Space`.
pub open spec fn is_white_space(c: char) -> bool {
    let n = c as u32;
    ||| 0x09 <= n <= 0x0d
    ||| n == 0x20
    ||| n == 0x85
    ||| n == 0xa0
    ||| n == 0x1680
    ||| 0x2000 <= n <= 0x200a
    ||| n == 0x2028
    ||| n == 0x2029
    ||| n == 0x202f
    ||| n == 0x205f
    ||| n == 0x3000
}

/// `s` without the white space at its end.
pub open spec fn trimmed_end(s: Seq<char>) -> Seq<char>
    decreases s.len(),
{
    if s.len() > 0 && is_white_space(s.last()) {
        trimmed_end(s.drop_last())
    } else {
        s
    }
}

/// `s` without the white space at its start.
pub open spec fn trimmed_start(s: Seq<char>) -> Seq<char>
    decreases s.len(),
{
    if s.len() > 0 && is_white_space(s.first()) {
        trimmed_start(s.drop_first())
    } else {
        s
    }
}

/// `s` without the white space at either end.
pub open spec fn trimmed(s: Seq<char>) -> Seq<char> {
    trimmed_start(trimmed_end(s))
}

/// The lower case of an ASCII letter; every other character is its own.
pub open spec fn lower_char(c: char) -> char {
    if 'A' <= c <= 'Z' {
        (c as u32 + 32) as char
    } else {
        c
    }
}

/// `s` with its ASCII letters in lower case.
pub open spec fn lowered(s: Seq<char>) -> Seq<char> {
    s.map_values(|c: char| lower_char(c))
}

/// Whether a sequence holds nothing but white space.
pub open spec fn is_blank(s: Seq<char>) -> bool {
    forall|i: int| 0 <= i < s.len() ==> is_white_space(#[trigger] s[i])
}

/// Lower case is lower case already, and keeps what is white space.
pub(crate) proof fn lemma_lower_char(c: char)
    ensures
        lower_char(lower_char(c)) == lower_char(c),
        is_white_space(lower_char(c)) == is_white_space(c),
        lower_char(c) == '/' <==> c == '/',
{
}

/// Lower case is taken character by character.
pub(crate) proof fn lemma_lowered(s: Seq<char>, t: Seq<char>)
    ensures
        lowered(s + t) == lowered(s) + lowered(t),
        lowered(lowered(s)) == lowered(s),
        lowered(s).len() == s.len(),
        forall|i: int| 0 <= i < s.len() ==> #[trigger] lowered(s)[i] == lower_char(s[i]),
        is_blank(lowered(s)) == is_blank(s),
{
    assert(lowered(s + t) =~= lowered(s) + lowered(t));
    assert(lowered(lowered(s)) =~= lowered(s)) by {
        assert forall|i: int| 0 <= i < s.len() implies lowered(lowered(s))[i] == lowered(s)[i] by {
            lemma_lower_char(s[i]);
        }
    }
    assert forall|i: int| 0 <= i < s.len() implies is_white_space(#[trigger] lowered(s)[i])
        == is_white_space(s[i]) by {
        lemma_lower_char(s[i]);
    }
    if is_blank(lowered(s)) {
        assert forall|i: int| 0 <= i < s.len() implies is_white_space(#[trigger] s[i]) by {
            assert(is_white_space(lowered(s)[i]));
        }
    }
}

/// What `trimmed_end` takes off is white space, and all of it.
pub(crate) proof fn lemma_trimmed_end(s: Seq<char>)
    ensures
        trimmed_end(s).len() <= s.len(),
        s == trimmed_end(s) + s.skip(trimmed_end(s).len() as int),
        is_blank(s.skip(trimmed_end(s).len() as int)),
        trimmed_end(s).len() > 0 ==> !is_white_space(trimmed_end(s).last()),
        trimmed_end(s).len() == 0 <==> is_blank(s),
        is_blank(s) ==> trimmed_end(s) == Seq::<char>::empty(),
        trimmed_end(lowered(s)) == lowered(trimmed_end(s)),
    decreases s.len(),
{
    let end = trimmed_end(s);
    lemma_lowered(s, s);
    if s.len() > 0 && is_white_space(s.last()) {
        let front = s.drop_last();
        lemma_trimmed_end(front);
        lemma_lowered(front, front);
        assert(lowered(s).drop_last() =~= lowered(front));
        lemma_lower_char(s.last());
        assert forall|i: int| 0 <= i < end.len() implies #[trigger] end[i] == s[i] by {
            assert((end + front.skip(end.len() as int))[i] == front[i]);
        }
        assert(s =~= end + s.skip(end.len() as int));
        assert forall|i: int| 0 <= i < s.len() - end.len() implies is_white_space(
            #[trigger] s.skip(end.len() as int)[i],
        ) by {
            if i < front.len() - end.len() {
                assert(front.skip(end.len() as int)[i] == s.skip(end.len() as int)[i]);
            }
        }
        if is_blank(s) {
            assert(is_blank(front)) by {
                assert forall|i: int| 0 <= i < front.len() implies is_white_space(
                    #[trigger] front[i],
                ) by {
                    assert(front[i] == s[i]);
                }
            }
        }
        if is_blank(front) {
            assert forall|i: int| 0 <= i < s.len() implies is_white_space(#[trigger] s[i]) by {
                if i < front.len() {
                    assert(front[i] == s[i]);
                }
            }
        }
    } else {
        assert(s =~= s + s.skip(s.len() as int));
        if s.len() > 0 {
            lemma_lower_char(s.last());
            assert(!is_white_space(s[s.len() - 1]));
        }
    }
}

/// What `trimmed_start` takes off is white space, and all of it.
pub(crate) proof fn lemma_trimmed_start(s: Seq<char>)
    ensures
        trimmed_start(s).len() <= s.len(),
        s == s.take(s.len() - trimmed_start(s).len()) + trimmed_start(s),
        is_blank(s.take(s.len() - trimmed_start(s).len())),
        trimmed_start(s).len() > 0 ==> !is_white_space(trimmed_start(s).first()),
        trimmed_start(s).len() == 0 <==> is_blank(s),
        is_blank(s) ==> trimmed_start(s) == Seq::<char>::empty(),
        trimmed_start(lowered(s)) == lowered(trimmed_start(s)),
    decreases s.len(),
{
    let rest = trimmed_start(s);
    lemma_lowered(s, s);
    if s.len() > 0 && is_white_space(s.first()) {
        let back = s.drop_first();
        lemma_trimmed_start(back);
        lemma_lowered(back, back);
        assert(lowered(s).drop_first() =~= lowered(back));
        lemma_lower_char(s.first());
        let cut = s.len() - rest.len();
        assert(s.take(cut) =~= seq![s.first()] + back.take(cut - 1));
        assert(s =~= s.take(cut) + rest) by {
            assert(s =~= seq![s.first()] + back);
        }
        assert forall|i: int| 0 <= i < cut implies is_white_space(#[trigger] s.take(cut)[i]) by {
            if i > 0 {
                assert(back.take(cut - 1)[i - 1] == s.take(cut)[i]);
            }
        }
        if is_blank(s) {
            assert forall|i: int| 0 <= i < back.len() implies is_white_space(
                #[trigger] back[i],
            ) by {
                assert(back[i] == s[i + 1]);
            }
        }
        if is_blank(back) {
            assert forall|i: int| 0 <= i < s.len() implies is_white_space(#[trigger] s[i]) by {
                if i > 0 {
                    assert(back[i - 1] == s[i]);
                }
            }
        }
    } else {
        assert(s =~= s.take(0) + s);
        if s.len() > 0 {
            lemma_lower_char(s.first());
            assert(!is_white_space(s[0]));
        }
    }
}

/// `trimmed_end` of two parts: the second is trimmed, and the first only if
/// nothing of the second is left.
pub(crate) proof fn lemma_trimmed_end_concat(s: Seq<char>, t: Seq<char>)
    ensures
        is_blank(t) ==> trimmed_end(s + t) == trimmed_end(s),
        !is_blank(t) ==> trimmed_end(s + t) == s + trimmed_end(t),
    decreases t.len(),
{
    lemma_trimmed_end(t);
    if t.len() == 0 {
        assert(s + t =~= s);
    } else {
        assert((s + t).last() == t.last());
        assert((s + t).drop_last() =~= s + t.drop_last());
        if is_white_space(t.last()) {
            lemma_trimmed_end_concat(s, t.drop_last());
            lemma_trimmed_end(t.drop_last());
        }
    }
}

/// `trimmed_start` of two parts: the first is trimmed, and the second only if
/// nothing of the first is left.
pub(crate) proof fn lemma_trimmed_start_concat(s: Seq<char>, t: Seq<char>)
    ensures
        is_blank(s) ==> trimmed_start(s + t) == trimmed_start(t),
        !is_blank(s) ==> trimmed_start(s + t) == trimmed_start(s) + t,
    decreases s.len(),
{
    lemma_trimmed_start(s);
    if s.len() == 0 {
        assert(s + t =~= t);
    } else {
        assert((s + t).first() == s.first());
        assert((s + t).drop_first() =~= s.drop_first() + t);
        if is_white_space(s.first()) {
            lemma_trimmed_start_concat(s.drop_first(), t);
            lemma_trimmed_start(s.drop_first());
        }
    }
}

/// The two ends can be trimmed in either order, and lower case can be taken
/// before or after.
pub(crate) proof fn lemma_trimmed(s: Seq<char>)
    ensures
        trimmed(s) == trimmed_end(trimmed_start(s)),
        trimmed(lowered(s)) == lowered(trimmed(s)),
        is_blank(s) ==> trimmed(s) == Seq::<char>::empty(),
        !is_blank(s) ==> trimmed(s).len() > 0,
{
    let front = trimmed_end(s);
    let tail = s.skip(front.len() as int);
    lemma_trimmed_end(s);
    lemma_trimmed_start(s);
    lemma_trimmed_start(front);
    lemma_trimmed_start_concat(front, tail);
    if is_blank(s) {
        assert(front =~= Seq::<char>::empty());
        lemma_trimmed_end(trimmed_start(s));
    } else {
        lemma_trimmed_end(front);
        lemma_trimmed_end_concat(trimmed_start(front), tail);
        assert(trimmed_end(trimmed_start(front)) == trimmed_start(front)) by {
            let kept = trimmed_start(front);
            assert(kept.last() == front.last());
        }
    }
}

/// `str::trim` takes off the white space at both ends of a string.
pub assume_specification[ str::trim ](s: &str) -> (rest: &str)
    ensures
        rest@ == trimmed(s@),
;

/// `str::trim_end` takes off the white space at the end of a string.
pub assume_specification[ str::trim_end ](s: &str) -> (rest: &str)
    ensures
        rest@ == trimmed_end(s@),
;

/// `str::to_ascii_lowercase` copies a string and maps its ASCII letters to
/// lower case; every other character stays as it is.
pub assume_specification[ str::to_ascii_lowercase ](s: &str) -> (lower: String)
    ensures
        lower@ == lowered(s@),
;

/// Whether two strings hold the same characters.
pub(crate) fn same_text(a: &str, b: &str) -> (same: bool)
    ensures
        same == (a@ == b@),
{
    a.to_owned() == b.to_owned()
}

/// `str::strip_suffix` gives what stands before a suffix, or `None` where the
/// string does not end with it.
#[verifier::external_body]
pub(crate) fn strip_suffix<'a>(s: &'a str, suffix: &str) -> (rest: Option<&'a str>)
    ensures
        rest is Some <==> suffix@.is_suffix_of(s@),
        rest matches Some(r) ==> s@ == r@ + suffix@,
{
    s.strip_suffix(suffix)
}

} // verus!
