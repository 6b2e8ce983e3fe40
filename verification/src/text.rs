//! Character-level operations on adapter names.

use vstd::prelude::*;

verus! {

/// `word` stands in `text` from position `k` on.
pub open spec fn occurs_at(text: Seq<char>, word: Seq<char>, k: int) -> bool {
    &&& 0 <= k
    &&& k + word.len() <= text.len()
    &&& text.subrange(k, k + word.len()) == word
}

/// `word` stands somewhere in `text`.
pub open spec fn contains_word(text: Seq<char>, word: Seq<char>) -> bool {
    exists|k: int| occurs_at(text, word, k)
}

/// What `str::to_lowercase` makes of a text.
pub uninterp spec fn lowercase(text: Seq<char>) -> Seq<char>;

/// All characters of the text are ASCII ones.
pub open spec fn is_ascii_text(text: Seq<char>) -> bool {
    forall|i: int| 0 <= i < text.len() ==> (#[trigger] text[i] as u32) < 128
}

/// The lower case of an ASCII character: 'A' to 'Z' become 'a' to 'z', all others stay.
pub open spec fn ascii_lower(c: char) -> char {
    if 'A' <= c && c <= 'Z' {
        (c as u32 + 32) as char
    } else {
        c
    }
}

/// The lower case of an ASCII text.
pub open spec fn ascii_lowercase(text: Seq<char>) -> Seq<char> {
    text.map_values(|c: char| ascii_lower(c))
}

/// Two ASCII texts are the same but for the case of their letters.
pub open spec fn same_but_for_case(a: Seq<char>, b: Seq<char>) -> bool {
    &&& a.len() == b.len()
    &&& forall|i: int|
        0 <= i < a.len() ==> ascii_lower(#[trigger] a[i]) == ascii_lower(#[trigger] b[i])
}

/// `str::to_lowercase`: the text in lower case, by the rules of Unicode, which depend neither on
/// the locale nor on the machine. In an ASCII text they turn 'A' to 'Z' into 'a' to 'z' and keep
/// all else; what becomes of other characters is not said here.
#[verifier::external_body]
pub(crate) fn to_lowercase(text: &str) -> (lower: String)
    ensures
        lower@ == lowercase(text@),
        is_ascii_text(text@) ==> lower@ == ascii_lowercase(text@),
{
    text.to_lowercase()
}

/// Dictionary order on texts, character by character; a proper prefix comes first.
pub open spec fn text_precedes(a: Seq<char>, b: Seq<char>) -> bool
    decreases a.len(),
{
    if b.len() == 0 {
        false
    } else if a.len() == 0 {
        true
    } else if a[0] != b[0] {
        a[0] < b[0]
    } else {
        text_precedes(a.drop_first(), b.drop_first())
    }
}

pub(crate) proof fn lemma_text_irreflexive(a: Seq<char>)
    ensures
        !text_precedes(a, a),
    decreases a.len(),
{
    if a.len() > 0 {
        lemma_text_irreflexive(a.drop_first());
    }
}

pub(crate) proof fn lemma_text_connected(a: Seq<char>, b: Seq<char>)
    requires
        a != b,
    ensures
        text_precedes(a, b) || text_precedes(b, a),
    decreases a.len(),
{
    if a.len() == 0 {
        if b.len() == 0 {
            assert(a =~= b);
        }
    } else if b.len() > 0 && a[0] == b[0] {
        if a.drop_first() == b.drop_first() {
            assert(a =~= seq![a[0]] + a.drop_first());
            assert(b =~= seq![b[0]] + b.drop_first());
        }
        lemma_text_connected(a.drop_first(), b.drop_first());
    }
}

pub(crate) proof fn lemma_text_transitive(a: Seq<char>, b: Seq<char>, c: Seq<char>)
    requires
        text_precedes(a, b),
        text_precedes(b, c),
    ensures
        text_precedes(a, c),
    decreases a.len(),
{
    if a.len() > 0 && b.len() > 0 && c.len() > 0 && a[0] == b[0] && b[0] == c[0] {
        lemma_text_transitive(a.drop_first(), b.drop_first(), c.drop_first());
    }
}

/// The characters of `text`, in order.
pub(crate) fn characters(text: &str) -> (chars: Vec<char>)
    ensures
        chars@ == text@,
{
    let mut chars: Vec<char> = Vec::new();
    for c in it: text.chars()
        invariant
            it.seq() == text@,
            chars@ == text@.take(it.index() as int),
    {
        chars.push(c);
    }
    assert(text@.take(text@.len() as int) =~= text@);
    chars
}

/// Whether `a` comes before `b` in dictionary order.
pub(crate) fn comes_before(a: &str, b: &str) -> (before: bool)
    ensures
        before == text_precedes(a@, b@),
{
    let left = characters(a);
    let right = characters(b);
    let mut i: usize = 0;
    assert(a@.skip(0) =~= a@ && b@.skip(0) =~= b@);
    while i < left.len() && i < right.len() && left[i] == right[i]
        invariant
            left@ == a@,
            right@ == b@,
            i <= left.len(),
            i <= right.len(),
            text_precedes(a@, b@) == text_precedes(a@.skip(i as int), b@.skip(i as int)),
        decreases left.len() - i,
    {
        assert(a@.skip(i as int).drop_first() =~= a@.skip(i + 1));
        assert(b@.skip(i as int).drop_first() =~= b@.skip(i + 1));
        i += 1;
    }
    if i >= right.len() {
        false
    } else if i >= left.len() {
        true
    } else {
        left[i] < right[i]
    }
}

/// Whether `word` stands somewhere in `text`.
pub(crate) fn has_word(text: &[char], word: &str) -> (found: bool)
    ensures
        found == contains_word(text@, word@),
{
    let pattern = characters(word);
    if pattern.len() > text.len() {
        return false;
    }
    let last: usize = text.len() - pattern.len();
    let mut k: usize = 0;
    while k <= last
        invariant
            pattern@ == word@,
            last + pattern.len() == text.len(),
            k <= last + 1,
            forall|j: int| 0 <= j < k ==> !occurs_at(text@, word@, j),
        decreases last + 1 - k,
    {
        let mut i: usize = 0;
        while i < pattern.len() && text[k + i] == pattern[i]
            invariant
                pattern@ == word@,
                last + pattern.len() == text.len(),
                k <= last,
                i <= pattern.len(),
                forall|j: int| 0 <= j < i ==> text@[k + j] == word@[j],
            decreases pattern.len() - i,
        {
            i += 1;
        }
        if i == pattern.len() {
            assert(text@.subrange(k as int, k + word@.len()) =~= word@);
            assert(occurs_at(text@, word@, k as int));
            return true;
        }
        assert(!occurs_at(text@, word@, k as int)) by {
            assert(text@.subrange(k as int, k + word@.len())[i as int] == text@[k + i]);
        }
        k += 1;
    }
    false
}

/// A text contains a word exactly if it is some text, the word, and some text, one after another.
pub proof fn law_contained_word(text: Seq<char>, word: Seq<char>)
    ensures
        contains_word(text, word) <==> exists|before: Seq<char>, after: Seq<char>|
            text == #[trigger] (before + word + after),
{
    if contains_word(text, word) {
        let k = choose|k: int| occurs_at(text, word, k);
        let before = text.take(k);
        let after = text.skip(k + word.len());
        assert(before + word + after =~= text) by {
            assert forall|i: int| 0 <= i < text.len() implies (before + word + after)[i]
                == text[i] by {
                if k <= i < k + word.len() {
                    assert(text.subrange(k, k + word.len())[i - k] == text[i]);
                }
            }
        }
    }
    if exists|before: Seq<char>, after: Seq<char>| text == #[trigger] (before + word + after) {
        let (before, after) = choose|before: Seq<char>, after: Seq<char>|
            text == #[trigger] (before + word + after);
        let k = before.len() as int;
        assert(text.subrange(k, k + word.len()) =~= word);
        assert(occurs_at(text, word, k));
    }
}

/// One text precedes another exactly if both begin alike and then the first one ends where the
/// other goes on, or has the character with the smaller code.
pub proof fn law_dictionary_order(a: Seq<char>, b: Seq<char>)
    ensures
        text_precedes(a, b) <==> exists|k: int|
            {
                &&& 0 <= k <= a.len()
                &&& k < b.len()
                &&& #[trigger] a.take(k) == b.take(k)
                &&& k == a.len() || a[k] < b[k]
            },
    decreases a.len(),
{
    if b.len() > 0 && a.len() == 0 {
        assert(a.take(0) =~= b.take(0));
    } else if b.len() > 0 && a[0] != b[0] {
        assert(a.take(0) =~= b.take(0));
        assert forall|k: int|
            0 < k <= a.len() && k < b.len() implies #[trigger] a.take(k) != b.take(k) by {
            assert(a.take(k)[0] == a[0] && b.take(k)[0] == b[0]);
        }
    } else if b.len() > 0 {
        let ra = a.drop_first();
        let rb = b.drop_first();
        law_dictionary_order(ra, rb);
        if text_precedes(a, b) {
            let j = choose|j: int|
                {
                    &&& 0 <= j <= ra.len()
                    &&& j < rb.len()
                    &&& #[trigger] ra.take(j) == rb.take(j)
                    &&& j == ra.len() || ra[j] < rb[j]
                };
            assert(a.take(j + 1) =~= seq![a[0]] + ra.take(j));
            assert(b.take(j + 1) =~= seq![b[0]] + rb.take(j));
            assert(a.take(j + 1) == b.take(j + 1));
        }
        if exists|k: int|
            {
                &&& 0 <= k <= a.len()
                &&& k < b.len()
                &&& #[trigger] a.take(k) == b.take(k)
                &&& k == a.len() || a[k] < b[k]
            } {
            let k = choose|k: int|
                {
                    &&& 0 <= k <= a.len()
                    &&& k < b.len()
                    &&& #[trigger] a.take(k) == b.take(k)
                    &&& k == a.len() || a[k] < b[k]
                };
            assert(ra.take(k - 1) =~= a.take(k).drop_first());
            assert(rb.take(k - 1) =~= b.take(k).drop_first());
            assert(ra.take(k - 1) == rb.take(k - 1));
        }
    }
}

/// The lower case of an ASCII text has its characters in their places, with codes 65 to 90 raised
/// by 32 and all others as they were.
pub proof fn law_lower_case_of_ascii(text: Seq<char>, i: int)
    requires
        0 <= i < text.len(),
    ensures
        ascii_lowercase(text).len() == text.len(),
        65 <= text[i] as u32 <= 90 ==> ascii_lowercase(text)[i] as u32 == text[i] as u32 + 32,
        !(65 <= text[i] as u32 <= 90) ==> ascii_lowercase(text)[i] == text[i],
{
}

} // verus!
