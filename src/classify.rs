use vstd::prelude::*;

use crate::text::{chars_of, find_last, last_index, lemma_last_index_bounds};

verus! {

/// Index of the last `'.'` in `name`, or -1 when it has none.
pub open spec fn last_dot(name: Seq<char>) -> int {
    last_index(name, '.')
}

/// The extension of a file name: what follows its last dot. A name without a dot
/// has none.
pub open spec fn extension_of(name: Seq<char>) -> Option<Seq<char>> {
    if last_dot(name) >= 0 {
        Some(name.subrange(last_dot(name) + 1, name.len() as int))
    } else {
        None
    }
}

/// `c` is the lower-case ASCII letter `lower`, written in either case.
pub open spec fn same_letter(c: char, lower: char) -> bool {
    c == lower || ('a' <= lower <= 'z' && c as u32 == lower as u32 - 32)
}

/// `ext` spells the lower-case word `word`, ignoring ASCII case.
pub open spec fn spells(ext: Seq<char>, word: Seq<char>) -> bool {
    &&& ext.len() == word.len()
    &&& forall|i: int| 0 <= i < ext.len() ==> same_letter(#[trigger] ext[i], word[i])
}

/// The extensions of the image types the browser shows, in lower case.
pub open spec fn image_extensions() -> Seq<Seq<char>> {
    seq![
        seq!['j', 'p', 'g'],
        seq!['j', 'p', 'e', 'g'],
        seq!['p', 'n', 'g'],
        seq!['g', 'i', 'f'],
        seq!['b', 'm', 'p'],
        seq!['w', 'e', 'b', 'p'],
        seq!['t', 'i', 'f', 'f'],
        seq!['s', 'v', 'g'],
    ]
}

/// A file name denotes a supported image: its extension spells one of the image
/// extensions, in any ASCII case.
pub open spec fn is_image_name(name: Seq<char>) -> bool {
    match extension_of(name) {
        Some(ext) => exists|k: int| 0 <= k < image_extensions().len() && spells(ext, #[trigger] image_extensions()[k]),
        None => false,
    }
}

fn spells_word(name: &Vec<char>, start: usize, word: &Vec<char>) -> (r: bool)
    requires
        start <= name@.len(),
    ensures
        r == spells(name@.subrange(start as int, name@.len() as int), word@),
{
    let ghost ext = name@.subrange(start as int, name@.len() as int);
    if name.len() - start != word.len() {
        return false;
    }
    let mut i: usize = 0;
    while i < word.len()
        invariant
            start <= name@.len(),
            ext == name@.subrange(start as int, name@.len() as int),
            ext.len() == word@.len(),
            start + word@.len() == name@.len(),
            i <= word@.len(),
            forall|j: int| 0 <= j < i ==> same_letter(#[trigger] ext[j], word@[j]),
        decreases word@.len() - i,
    {
        assert(name@.len() == name.len());
        let c = name[start + i];
        let w = word[i];
        let same = c == w || ('a' <= w && w <= 'z' && c as u32 == w as u32 - 32);
        if !same {
            assert(!same_letter(ext[i as int], word@[i as int]));
            return false;
        }
        i = i + 1;
    }
    true
}

/// Whether `filename` names a supported image type, judged by its extension alone
/// and without regard to ASCII case.
pub fn is_image_file(filename: &str) -> (r: bool)
    ensures
        r == is_image_name(filename@),
{
    let name = chars_of(filename);
    let len = name.len();
    assert(name@.subrange(0, len as int) =~= name@);
    let dot = match find_last(&name, len, '.') {
        Some(d) => d,
        None => {
            return false;
        },
    };
    assert(dot < len);
    let start = dot + 1;
    let words: Vec<Vec<char>> = vec![
        vec!['j', 'p', 'g'],
        vec!['j', 'p', 'e', 'g'],
        vec!['p', 'n', 'g'],
        vec!['g', 'i', 'f'],
        vec!['b', 'm', 'p'],
        vec!['w', 'e', 'b', 'p'],
        vec!['t', 'i', 'f', 'f'],
        vec!['s', 'v', 'g'],
    ];
    assert(words@.len() == image_extensions().len());
    assert(forall|k: int| 0 <= k < words@.len() ==> (#[trigger] words@[k])@ == image_extensions()[k]);
    let mut k: usize = 0;
    while k < words.len()
        invariant
            start as int == last_dot(filename@) + 1,
            last_dot(filename@) >= 0,
            start <= name@.len(),
            name@ == filename@,
            words@.len() == image_extensions().len(),
            forall|j: int| 0 <= j < words@.len() ==> (#[trigger] words@[j])@ == image_extensions()[j],
            k <= words@.len(),
            forall|j: int| 0 <= j < k ==> !spells(
                filename@.subrange(start as int, filename@.len() as int),
                #[trigger] image_extensions()[j],
            ),
        decreases words@.len() - k,
    {
        if spells_word(&name, start, &words[k]) {
            return true;
        }
        k = k + 1;
    }
    false
}

/// `c` and `d` are the same character, or the same ASCII letter in two cases.
pub open spec fn same_ignoring_case(c: char, d: char) -> bool {
    ||| c == d
    ||| ('a' <= c <= 'z' && d as u32 == c as u32 - 32)
    ||| ('a' <= d <= 'z' && c as u32 == d as u32 - 32)
}

/// `a` and `b` spell the same text up to ASCII case.
pub open spec fn equal_ignoring_case(a: Seq<char>, b: Seq<char>) -> bool {
    &&& a.len() == b.len()
    &&& forall|i: int| 0 <= i < a.len() ==> same_ignoring_case(#[trigger] a[i], b[i])
}

proof fn lemma_last_dot_ignores_case(a: Seq<char>, b: Seq<char>)
    requires
        equal_ignoring_case(a, b),
    ensures
        last_dot(a) == last_dot(b),
    decreases a.len(),
{
    if a.len() > 0 {
        assert(same_ignoring_case(a[a.len() - 1], b[b.len() - 1]));
        assert(equal_ignoring_case(a.drop_last(), b.drop_last())) by {
            assert forall|i: int| 0 <= i < a.drop_last().len() implies same_ignoring_case(
                #[trigger] a.drop_last()[i],
                b.drop_last()[i],
            ) by {
                assert(same_ignoring_case(a[i], b[i]));
            }
        }
        lemma_last_dot_ignores_case(a.drop_last(), b.drop_last());
    }
}

/// Whether a file name denotes an image does not depend on the ASCII case in which
/// it is written.
pub proof fn lemma_image_name_ignores_case(a: Seq<char>, b: Seq<char>)
    requires
        equal_ignoring_case(a, b),
    ensures
        is_image_name(a) == is_image_name(b),
{
    lemma_last_dot_ignores_case(a, b);
    lemma_last_index_bounds(a, '.');
    if last_dot(a) >= 0 {
        let ea = a.subrange(last_dot(a) + 1, a.len() as int);
        let eb = b.subrange(last_dot(b) + 1, b.len() as int);
        assert(equal_ignoring_case(ea, eb)) by {
            assert forall|i: int| 0 <= i < ea.len() implies same_ignoring_case(#[trigger] ea[i], eb[i]) by {
                assert(same_ignoring_case(a[last_dot(a) + 1 + i], b[last_dot(a) + 1 + i]));
            }
        }
        assert forall|k: int| 0 <= k < image_extensions().len() implies spells(ea, #[trigger] image_extensions()[k])
            == spells(eb, image_extensions()[k]) by {
            lemma_extensions_lower_case(k);
            lemma_spells_ignores_case(ea, eb, image_extensions()[k]);
        }
    }
}

proof fn lemma_extensions_lower_case(k: int)
    requires
        0 <= k < image_extensions().len(),
    ensures
        forall|i: int| 0 <= i < image_extensions()[k].len() ==> 'a' <= #[trigger] image_extensions()[k][i] <= 'z',
{
}

proof fn lemma_spells_ignores_case(ea: Seq<char>, eb: Seq<char>, w: Seq<char>)
    requires
        equal_ignoring_case(ea, eb),
        forall|i: int| 0 <= i < w.len() ==> 'a' <= #[trigger] w[i] <= 'z',
    ensures
        spells(ea, w) == spells(eb, w),
{
    if spells(ea, w) {
        assert forall|i: int| 0 <= i < eb.len() implies same_letter(#[trigger] eb[i], w[i]) by {
            assert(same_ignoring_case(ea[i], eb[i]));
            assert(same_letter(ea[i], w[i]));
        }
    }
    if spells(eb, w) {
        assert forall|i: int| 0 <= i < ea.len() implies same_letter(#[trigger] ea[i], w[i]) by {
            assert(same_ignoring_case(ea[i], eb[i]));
            assert(same_letter(eb[i], w[i]));
        }
    }
}

/// A name is an image's only through an extension that spells one of the image
/// extensions: a name without an extension, or with any other, is not.
pub proof fn lemma_image_name_needs_listed_extension(name: Seq<char>)
    ensures
        is_image_name(name) <==> (extension_of(name) matches Some(ext) && exists|k: int|
            0 <= k < image_extensions().len() && spells(ext, #[trigger] image_extensions()[k])),
        extension_of(name) is None ==> !is_image_name(name),
{
}

} // verus!
