use vstd::prelude::*;

verus! {

/// The whitespace characters trimmed off a finished transcript and
/// refused by the blank-text gate: the Unicode White_Space set.
pub open spec fn is_wspace(c: char) -> bool {
    ||| c == '\u{0009}'  // character tabulation
    ||| c == '\u{000A}'  // line feed
    ||| c == '\u{000B}'  // line tabulation
    ||| c == '\u{000C}'  // form feed
    ||| c == '\u{000D}'  // carriage return
    ||| c == '\u{0020}'  // space
    ||| c == '\u{0085}'  // next line
    ||| c == '\u{00A0}'  // no-break space
    ||| c == '\u{1680}'  // ogham space mark
    ||| c == '\u{2000}'  // en quad
    ||| c == '\u{2001}'  // em quad
    ||| c == '\u{2002}'  // en space
    ||| c == '\u{2003}'  // em space
    ||| c == '\u{2004}'  // three-per-em space
    ||| c == '\u{2005}'  // four-per-em space
    ||| c == '\u{2006}'  // six-per-em space
    ||| c == '\u{2007}'  // figure space
    ||| c == '\u{2008}'  // punctuation space
    ||| c == '\u{2009}'  // thin space
    ||| c == '\u{200A}'  // hair space
    ||| c == '\u{2028}'  // line separator
    ||| c == '\u{2029}'  // paragraph separator
    ||| c == '\u{202F}'  // narrow no-break space
    ||| c == '\u{205F}'  // medium mathematical space
    ||| c == '\u{3000}'  // ideographic space
}

/// The segments in chronological order, each followed by one space.
pub open spec fn join_spaced(segs: Seq<Seq<char>>) -> Seq<char>
    decreases segs.len(),
{
    if segs.len() == 0 {
        Seq::empty()
    } else {
        join_spaced(segs.drop_last()) + segs.last() + seq![' ']
    }
}

pub open spec fn trim_start_spec(s: Seq<char>) -> Seq<char>
    decreases s.len(),
{
    if s.len() > 0 && is_wspace(s[0]) {
        trim_start_spec(s.skip(1))
    } else {
        s
    }
}

pub open spec fn trim_end_spec(s: Seq<char>) -> Seq<char>
    decreases s.len(),
{
    if s.len() > 0 && is_wspace(s.last()) {
        trim_end_spec(s.drop_last())
    } else {
        s
    }
}

/// `s` without leading and trailing whitespace.
pub open spec fn trim_spec(s: Seq<char>) -> Seq<char> {
    trim_end_spec(trim_start_spec(s))
}

/// The engine's final text for a list of segments: joined in order, one
/// trailing space after each, trimmed after the final join.
pub open spec fn transcript_spec(segs: Seq<Seq<char>>) -> Seq<char> {
    trim_spec(join_spaced(segs))
}

/// Dropping `k` leading whitespace characters, up to the first
/// non-whitespace one, is all that trimming the start does.
proof fn lemma_trim_start_is_skip(s: Seq<char>, k: int)
    requires
        0 <= k <= s.len(),
        forall|j: int| 0 <= j < k ==> is_wspace(s[j]),
        k < s.len() ==> !is_wspace(s[k]),
    ensures
        trim_start_spec(s) == s.skip(k),
    decreases k,
{
    if k == 0 {
        assert(s.skip(0) =~= s);
    } else {
        assert(is_wspace(s[0]));
        let t = s.skip(1);
        assert forall|j: int| 0 <= j < k - 1 implies is_wspace(t[j]) by {
            assert(t[j] == s[j + 1]);
        }
        if k - 1 < t.len() {
            assert(t[k - 1] == s[k]);
        }
        lemma_trim_start_is_skip(t, k - 1);
        assert(t.skip(k - 1) =~= s.skip(k));
    }
}

/// Dropping trailing whitespace back to the last non-whitespace character
/// is all that trimming the end does.
proof fn lemma_trim_end_is_take(s: Seq<char>, k: int)
    requires
        0 <= k <= s.len(),
        forall|j: int| k <= j < s.len() ==> is_wspace(s[j]),
        k > 0 ==> !is_wspace(s[k - 1]),
    ensures
        trim_end_spec(s) == s.take(k),
    decreases s.len() - k,
{
    if k == s.len() {
        assert(s.take(k) =~= s);
    } else {
        assert(is_wspace(s.last()));
        let t = s.drop_last();
        assert forall|j: int| k <= j < t.len() implies is_wspace(t[j]) by {
            assert(t[j] == s[j]);
        }
        lemma_trim_end_is_take(t, k);
        assert(t.take(k) =~= s.take(k));
    }
}

/// Whether `c` is one of the Unicode White_Space characters.
pub(crate) fn is_space_char(c: char) -> (r: bool)
    ensures
        r == is_wspace(c),
{
    c == '\u{0009}' || c == '\u{000A}' || c == '\u{000B}' || c == '\u{000C}' || c == '\u{000D}'
        || c == '\u{0020}' || c == '\u{0085}' || c == '\u{00A0}' || c == '\u{1680}' || c
        == '\u{2000}' || c == '\u{2001}' || c == '\u{2002}' || c == '\u{2003}' || c == '\u{2004}'
        || c == '\u{2005}' || c == '\u{2006}' || c == '\u{2007}' || c == '\u{2008}' || c
        == '\u{2009}' || c == '\u{200A}' || c == '\u{2028}' || c == '\u{2029}' || c == '\u{202F}'
        || c == '\u{205F}' || c == '\u{3000}'
}

/// `s` without leading and trailing whitespace.
pub fn trim_text(s: &String) -> (r: String)
    ensures
        r@ == trim_spec(s@),
{
    let n = s.as_str().unicode_len();
    let mut start: usize = 0;
    while start < n && is_space_char(s.as_str().get_char(start))
        invariant
            n == s@.len(),
            start <= n,
            forall|j: int| 0 <= j < start ==> is_wspace(s@[j]),
        decreases n - start,
    {
        start = start + 1;
    }
    let mut end: usize = n;
    while end > start && is_space_char(s.as_str().get_char(end - 1))
        invariant
            n == s@.len(),
            start <= end <= n,
            forall|j: int| end <= j < n ==> is_wspace(s@[j]),
        decreases end,
    {
        end = end - 1;
    }
    proof {
        lemma_trim_start_is_skip(s@, start as int);
        let t = s@.skip(start as int);
        assert forall|j: int| end - start <= j < t.len() implies is_wspace(t[j]) by {
            assert(t[j] == s@[start + j]);
        }
        if end > start {
            assert(t[end - start - 1] == s@[end - 1]);
        }
        lemma_trim_end_is_take(t, end - start);
        assert(t.take(end - start) =~= s@.subrange(start as int, end as int));
    }
    String::from_str(s.as_str().substring_char(start, end))
}

/// Concatenate the segments in index order, a space after each, then trim
/// the whole — the transcription result the engine returns.
pub fn assemble_transcript(segments: &Vec<String>) -> (r: String)
    ensures
        r@ == transcript_spec(segments@.map_values(|s: String| s@)),
{
    let ghost segs = segments@.map_values(|s: String| s@);
    let mut acc = String::new();
    let mut i: usize = 0;
    proof {
        reveal_strlit(" ");
        assert(segs.take(0) =~= Seq::<Seq<char>>::empty());
    }
    while i < segments.len()
        invariant
            i <= segments@.len(),
            segs == segments@.map_values(|s: String| s@),
            acc@ == join_spaced(segs.take(i as int)),
        decreases segments@.len() - i,
    {
        acc.append(segments[i].as_str());
        acc.append(" ");
        proof {
            reveal_strlit(" ");
            assert(segs.take(i + 1).drop_last() =~= segs.take(i as int));
            assert(segs.take(i + 1).last() == segs[i as int]);
            assert(" "@ =~= seq![' ']);
            assert(acc@ =~= join_spaced(segs.take(i + 1)));
        }
        i = i + 1;
    }
    proof {
        assert(segs.take(segments@.len() as int) =~= segs);
    }
    trim_text(&acc)
}

} // verus!
