//! Text helpers for laying out strings in fixed-width boxes.
//! Lengths here count characters, not bytes.
use vstd::prelude::*;
use vstd::string::StrSliceExecFns;
use vstd::string::StringExecFns;

verus! {

/// Truncates the string to at most `len` characters, ending a truncated
/// string in `"..."`; a string already within the limit stays as it is.
/// Returns the string for further chaining.
pub fn max_len<'a>(string: &'a mut String, len: usize) -> (ret: &'a mut String)
    requires
        len >= 3,
    ensures
        old(string)@.len() <= len ==> (*ret)@ == old(string)@,
        old(string)@.len() > len ==> (*ret)@ == old(string)@.subrange(0, len - 3) + "..."@,
        *final(string) == *final(ret),
{
    let n: usize = string.as_str().unicode_len();
    if n > len {
        let mut t: String = string.as_str().substring_char(0, len - 3).to_owned();
        t.append("...");
        *string = t;
    }
    string
}

/// What char::to_uppercase yields for a character: its Unicode
/// uppercase mapping, one or more characters.
pub uninterp spec fn uppercase_of(c: char) -> Seq<char>;

/// What char::is_alphanumeric returns for a character.
pub uninterp spec fn is_alnum_char(c: char) -> bool;

/// What char::is_whitespace returns for a character.
pub uninterp spec fn is_space_char(c: char) -> bool;

/// Relies on char::to_uppercase: the uppercase mapping depends on the
/// character alone and yields at least one character.
#[verifier::external_body]
fn char_uppercase(c: char) -> (r: String)
    ensures
        r@ == uppercase_of(c),
        r@.len() >= 1,
{
    c.to_uppercase().collect()
}

/// Relies on char::is_alphanumeric: the Unicode alphanumeric property
/// of the character alone.
#[verifier::external_body]
fn char_is_alnum(c: char) -> (r: bool)
    ensures
        r == is_alnum_char(c),
{
    c.is_alphanumeric()
}

/// Relies on char::is_whitespace: the Unicode White_Space property of
/// the character alone.
#[verifier::external_body]
fn char_is_space(c: char) -> (r: bool)
    ensures
        r == is_space_char(c),
{
    c.is_whitespace()
}

/// The characters left after dropping leading whitespace.
pub open spec fn trim_front(s: Seq<char>) -> Seq<char>
    decreases s.len(),
{
    if s.len() > 0 && is_space_char(s[0]) {
        trim_front(s.drop_first())
    } else {
        s
    }
}

/// The characters left after dropping trailing whitespace.
pub open spec fn trim_back(s: Seq<char>) -> Seq<char>
    decreases s.len(),
{
    if s.len() > 0 && is_space_char(s.last()) {
        trim_back(s.drop_last())
    } else {
        s
    }
}

/// The characters left after dropping whitespace at both ends.
pub open spec fn trimmed(s: Seq<char>) -> Seq<char> {
    trim_back(trim_front(s))
}

/// The index of the first space, or the length when there is none.
pub open spec fn first_space(s: Seq<char>) -> int
    decreases s.len(),
{
    if s.len() == 0 {
        0
    } else if s[0] == ' ' {
        0
    } else {
        1 + first_space(s.drop_first())
    }
}

/// The words of `s`, split on single spaces: a string without a space
/// is one word (the empty string is one empty word), and every space
/// separates two words, so consecutive spaces surround empty words.
pub open spec fn words_of(s: Seq<char>) -> Seq<Seq<char>>
    decreases s.len(),
{
    let i = first_space(s);
    if 0 <= i < s.len() {
        seq![s.subrange(0, i)] + words_of(s.subrange(i + 1, s.len() as int))
    } else {
        seq![s]
    }
}

/// A word stays in the query unless it is one single character that is
/// not alphanumeric (a lone separator such as `/` or `-`).
pub open spec fn keep_word(w: Seq<char>) -> bool {
    !(w.len() == 1 && !is_alnum_char(w[0]))
}

/// The word with its first character replaced by that character's
/// uppercase mapping.
pub open spec fn cap_word(w: Seq<char>) -> Seq<char> {
    if w.len() == 0 {
        w
    } else {
        uppercase_of(w[0]) + w.subrange(1, w.len() as int)
    }
}

/// The kept words, each capitalized, in order.
pub open spec fn kept_words(ws: Seq<Seq<char>>) -> Seq<Seq<char>>
    decreases ws.len(),
{
    if ws.len() == 0 {
        Seq::empty()
    } else if keep_word(ws.last()) {
        kept_words(ws.drop_last()).push(cap_word(ws.last()))
    } else {
        kept_words(ws.drop_last())
    }
}

/// The words joined with a `+` between each pair of neighbours.
pub open spec fn joined(ws: Seq<Seq<char>>) -> Seq<char>
    decreases ws.len(),
{
    if ws.len() == 0 {
        Seq::empty()
    } else if ws.len() == 1 {
        ws[0]
    } else {
        ws[0] + seq!['+'] + joined(ws.drop_first())
    }
}

/// The query a search input becomes: the input is trimmed, split on
/// spaces, lone non-alphanumeric characters are dropped, each word is
/// capitalized, and the words are joined with `+`.
pub open spec fn processed_query(s: Seq<char>) -> Seq<char> {
    joined(kept_words(words_of(trimmed(s))))
}

/// Characterizes `trim_front` by the index of the first non-space.
proof fn lemma_trim_front_at(s: Seq<char>, k: int)
    requires
        0 <= k <= s.len(),
        forall|j: int| 0 <= j < k ==> is_space_char(s[j]),
        k < s.len() ==> !is_space_char(s[k]),
    ensures
        trim_front(s) == s.subrange(k, s.len() as int),
    decreases k,
{
    if k == 0 {
        assert(s.subrange(0, s.len() as int) =~= s);
    } else {
        lemma_trim_front_at(s.drop_first(), k - 1);
        assert(s.drop_first().subrange(k - 1, s.drop_first().len() as int) =~= s.subrange(
            k,
            s.len() as int,
        ));
    }
}

/// Characterizes `trim_back` by the index past the last non-space.
proof fn lemma_trim_back_at(s: Seq<char>, m: int)
    requires
        0 <= m <= s.len(),
        forall|j: int| m <= j < s.len() ==> is_space_char(s[j]),
        m > 0 ==> !is_space_char(s[m - 1]),
    ensures
        trim_back(s) == s.subrange(0, m),
    decreases s.len() - m,
{
    if m == s.len() {
        if m == 0 {
            assert(s.subrange(0, 0) =~= s);
        } else {
            assert(s.subrange(0, m) =~= s);
        }
    } else {
        lemma_trim_back_at(s.drop_last(), m);
        assert(s.drop_last().subrange(0, m) =~= s.subrange(0, m));
    }
}

/// Characterizes `first_space` by what the scan to the first space saw.
proof fn lemma_first_space_at(s: Seq<char>, k: int)
    requires
        0 <= k <= s.len(),
        forall|j: int| 0 <= j < k ==> s[j] != ' ',
        k < s.len() ==> s[k] == ' ',
    ensures
        first_space(s) == k,
    decreases k,
{
    if k > 0 {
        lemma_first_space_at(s.drop_first(), k - 1);
    }
}

/// Joining one more word appends it, after a `+` when words came
/// before it.
proof fn lemma_joined_push(ws: Seq<Seq<char>>, w: Seq<char>)
    ensures
        joined(ws.push(w)) == if ws.len() == 0 {
            w
        } else {
            joined(ws) + seq!['+'] + w
        },
    decreases ws.len(),
{
    let pushed = ws.push(w);
    if ws.len() == 0 {
        assert(pushed.len() == 1 && pushed[0] == w);
    } else {
        lemma_joined_push(ws.drop_first(), w);
        assert(pushed.drop_first() =~= ws.drop_first().push(w));
        assert(pushed.len() >= 2 && pushed[0] == ws[0]);
        if ws.len() == 1 {
            assert(joined(ws) == ws[0]);
        }
    }
}

/// Builds the query string a search input becomes: trimmed, split on
/// spaces, lone non-alphanumeric characters dropped, each word
/// capitalized, all joined with `+`.
pub fn process_search_string(s: String) -> (r: String)
    ensures
        r@ == processed_query(s@),
{
    let strslice: &str = s.as_str();
    let total: usize = strslice.unicode_len();

    let mut start: usize = 0;
    while start < total && char_is_space(strslice.get_char(start))
        invariant
            start <= total,
            total == s@.len(),
            strslice@ == s@,
            forall|j: int| 0 <= j < start ==> is_space_char(s@[j]),
        decreases total - start,
    {
        start = start + 1;
    }
    let mut end: usize = total;
    while end > start && char_is_space(strslice.get_char(end - 1))
        invariant
            start <= end <= total,
            total == s@.len(),
            strslice@ == s@,
            forall|j: int| end <= j < total ==> is_space_char(s@[j]),
        decreases end,
    {
        end = end - 1;
    }
    proof {
        lemma_trim_front_at(s@, start as int);
        let u = s@.subrange(start as int, total as int);
        assert forall|j: int| end - start <= j < u.len() implies is_space_char(u[j]) by {
            assert(is_space_char(s@[start + j]));
        }
        lemma_trim_back_at(u, end - start);
        assert(u.subrange(0, end - start) =~= s@.subrange(start as int, end as int));
    }
    let t: &str = strslice.substring_char(start, end);
    let tlen: usize = end - start;
    let ghost gt = t@;
    proof {
        assert(gt == trimmed(s@));
        assert(gt.len() == tlen);
    }

    let mut out: String = String::new();
    let mut any: bool = false;
    let ghost mut wdone: Seq<Seq<char>> = Seq::empty();
    let mut p: usize = 0;
    proof {
        assert(gt.subrange(0, tlen as int) =~= gt);
        assert(words_of(gt) =~= wdone + words_of(gt.subrange(0, tlen as int)));
    }
    loop
        invariant
            p <= tlen,
            t@ == gt,
            gt.len() == tlen,
            gt == trimmed(s@),
            words_of(gt) == wdone + words_of(gt.subrange(p as int, tlen as int)),
            out@ == joined(kept_words(wdone)),
            any == (kept_words(wdone).len() > 0),
        decreases tlen - p,
    {
        let mut q: usize = p;
        while q < tlen && t.get_char(q) != ' '
            invariant
                p <= q <= tlen,
                t@ == gt,
                gt.len() == tlen,
                forall|j: int| p <= j < q ==> gt[j] != ' ',
            decreases tlen - q,
        {
            q = q + 1;
        }
        let ghost rem = gt.subrange(p as int, tlen as int);
        let ghost w = gt.subrange(p as int, q as int);
        proof {
            assert forall|j: int| 0 <= j < q - p implies rem[j] != ' ' by {
                assert(gt[p + j] != ' ');
            }
            lemma_first_space_at(rem, q - p);
            assert(rem.subrange(0, q - p) =~= w);
        }

        let wlen: usize = q - p;
        let keep: bool = if wlen == 1 {
            char_is_alnum(t.get_char(p))
        } else {
            true
        };
        proof {
            if wlen == 1 {
                assert(w[0] == gt[p as int]);
            }
            assert(keep == keep_word(w));
        }
        let ghost old_wdone = wdone;
        if keep {
            if any {
                out.append("+");
            }
            if wlen > 0 {
                let up = char_uppercase(t.get_char(p));
                out.append(up.as_str());
                let rest = t.substring_char(p + 1, q);
                out.append(rest);
                proof {
                    assert(w[0] == gt[p as int]);
                    assert(t@.subrange(p + 1, q as int) =~= w.subrange(1, w.len() as int));
                }
            }
            proof {
                wdone = old_wdone.push(w);
                assert(wdone.drop_last() =~= old_wdone);
                assert(kept_words(wdone) == kept_words(old_wdone).push(cap_word(w)));
                lemma_joined_push(kept_words(old_wdone), cap_word(w));
                reveal_strlit("+");
                assert("+"@ =~= seq!['+']);
                assert(out@ =~= joined(kept_words(wdone)));
            }
            any = true;
        } else {
            proof {
                wdone = old_wdone.push(w);
                assert(wdone.drop_last() =~= old_wdone);
                assert(kept_words(wdone) == kept_words(old_wdone));
            }
        }

        if q == tlen {
            proof {
                assert(words_of(rem) == seq![rem]);
                assert(rem =~= w);
                assert(words_of(gt) =~= wdone);
            }
            return out;
        }
        proof {
            assert(words_of(rem) == seq![rem.subrange(0, q - p)] + words_of(
                rem.subrange(q - p + 1, rem.len() as int),
            ));
            assert(rem.subrange(q - p + 1, rem.len() as int) =~= gt.subrange(
                q + 1,
                tlen as int,
            ));
            assert(words_of(gt) =~= wdone + words_of(gt.subrange(q + 1, tlen as int)));
        }
        p = q + 1;
    }
}

} // verus!
