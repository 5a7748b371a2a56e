//! From a file stem to the identifier that labels the types of that file.

use vstd::prelude::*;

verus! {

/// The characters that `char::to_uppercase` yields for `c`, in order.
pub uninterp spec fn uppercase_mapping(c: char) -> Seq<char>;

/// The stem of the file name of `path`, as `std::path::Path::file_stem`
/// finds it in the text of the path, or `None` where the path has no file
/// name.
pub uninterp spec fn file_stem_of(path: Seq<char>) -> Option<Seq<char>>;

/// The two characters that part a stem into words.
pub open spec fn is_separator(c: char) -> bool {
    c == '-' || c == '_'
}

/// Whether a separator occurs anywhere in `s`.
pub open spec fn has_separator(s: Seq<char>) -> bool {
    exists|i: int| 0 <= i < s.len() && is_separator(#[trigger] s[i])
}

/// The words of `s`: the stretches between its separators, empty ones
/// included, so that `n` separators give `n + 1` words.
pub open spec fn split_words(s: Seq<char>) -> Seq<Seq<char>>
    decreases s.len(),
{
    if s.len() == 0 {
        seq![Seq::<char>::empty()]
    } else {
        let before = split_words(s.drop_last());
        if is_separator(s.last()) {
            before.push(Seq::<char>::empty())
        } else {
            before.drop_last().push(before.last().push(s.last()))
        }
    }
}

/// A word with its first character replaced by that character's uppercase
/// mapping. The empty word stays empty.
pub open spec fn capitalize(word: Seq<char>) -> Seq<char> {
    if word.len() == 0 {
        word
    } else {
        uppercase_mapping(word[0]) + word.drop_first()
    }
}

/// The capitalized words, one after the other with nothing between them.
pub open spec fn join_capitalized(words: Seq<Seq<char>>) -> Seq<char> {
    words.map_values(|w: Seq<char>| capitalize(w)).flatten()
}

/// The PascalCase form of a stem: a stem with separators becomes its
/// capitalized words joined; a stem without any is left as it is.
pub open spec fn pascal_case(stem: Seq<char>) -> Seq<char> {
    if has_separator(stem) {
        join_capitalized(split_words(stem))
    } else {
        stem
    }
}

/// Appends one character, as `String::push` does.
#[verifier::external_body]
fn push_char(s: &mut String, c: char)
    ensures
        final(s)@ == old(s)@.push(c),
{
    s.push(c);
}

/// The uppercase mapping of `c` as a string: what `char::to_uppercase`
/// yields, collected. The contract only names that result.
#[verifier::external_body]
fn uppercase_of(c: char) -> (upper: String)
    ensures
        upper@ == uppercase_mapping(c),
{
    c.to_uppercase().collect()
}

proof fn lemma_split_words_nonempty(s: Seq<char>)
    ensures
        split_words(s).len() >= 1,
    decreases s.len(),
{
    if s.len() > 0 {
        lemma_split_words_nonempty(s.drop_last());
    }
}

/// Joining is unchanged by one more empty word at the end.
proof fn lemma_join_open_word(words: Seq<Seq<char>>)
    ensures
        join_capitalized(words.push(Seq::<char>::empty())) == join_capitalized(words),
{
    let cap = |w: Seq<char>| capitalize(w);
    let empty = Seq::<char>::empty();
    assert(words.push(empty).map_values(cap) =~= words.map_values(cap).push(empty));
    words.map_values(cap).lemma_flatten_push(empty);
}

/// What one more character at the end of the last word does to the joined
/// text: it opens the word with its uppercase mapping, or follows as it is.
proof fn lemma_join_extend_word(words: Seq<Seq<char>>, c: char)
    requires
        words.len() >= 1,
    ensures
        join_capitalized(words.drop_last().push(words.last().push(c))) == if words.last().len()
            == 0 {
            join_capitalized(words) + uppercase_mapping(c)
        } else {
            join_capitalized(words).push(c)
        },
{
    let cap = |w: Seq<char>| capitalize(w);
    let rest = words.drop_last();
    let word = words.last();
    assert(words =~= rest.push(word));
    assert(rest.push(word).map_values(cap) =~= rest.map_values(cap).push(capitalize(word)));
    assert(rest.push(word.push(c)).map_values(cap) =~= rest.map_values(cap).push(
        capitalize(word.push(c)),
    ));
    rest.map_values(cap).lemma_flatten_push(capitalize(word));
    rest.map_values(cap).lemma_flatten_push(capitalize(word.push(c)));
    if word.len() == 0 {
        assert(word.push(c).drop_first() =~= Seq::<char>::empty());
        assert(capitalize(word.push(c)) =~= uppercase_mapping(c));
        assert(capitalize(word) =~= Seq::<char>::empty());
        assert(rest.map_values(cap).flatten() + capitalize(word) =~= rest.map_values(
            cap,
        ).flatten());
    } else {
        assert(word.push(c).drop_first() =~= word.drop_first().push(c));
        assert(capitalize(word.push(c)) =~= capitalize(word).push(c));
        assert(rest.map_values(cap).flatten() + capitalize(word).push(c) =~= (rest.map_values(
            cap,
        ).flatten() + capitalize(word)).push(c));
    }
}

/// The empty stem has one word, the empty one, and joins to nothing.
proof fn lemma_join_of_nothing()
    ensures
        join_capitalized(split_words(Seq::<char>::empty())) == Seq::<char>::empty(),
        split_words(Seq::<char>::empty()).last().len() == 0,
{
    let words = seq![Seq::<char>::empty()];
    assert(words.map_values(|w: Seq<char>| capitalize(w)) =~= words);
    words.lemma_flatten_singleton();
}

/// How the joined text grows with the last character of the stem: a
/// separator adds nothing, the first character of a word adds its uppercase
/// mapping, any other character adds itself.
proof fn lemma_join_step(s: Seq<char>)
    requires
        s.len() > 0,
    ensures
        split_words(s).len() >= 1,
        (split_words(s).last().len() == 0) == is_separator(s.last()),
        join_capitalized(split_words(s)) == {
            let before = join_capitalized(split_words(s.drop_last()));
            if is_separator(s.last()) {
                before
            } else if split_words(s.drop_last()).last().len() == 0 {
                before + uppercase_mapping(s.last())
            } else {
                before.push(s.last())
            }
        },
{
    let words = split_words(s.drop_last());
    lemma_split_words_nonempty(s.drop_last());
    lemma_split_words_nonempty(s);
    if is_separator(s.last()) {
        lemma_join_open_word(words);
    } else {
        lemma_join_extend_word(words, s.last());
    }
}

/// Where no character of the stem has a separator in its uppercase mapping,
/// the joined words hold no separator.
proof fn lemma_join_has_no_separator(s: Seq<char>)
    requires
        forall|i: int|
            0 <= i < s.len() && !is_separator(s[i]) ==> !has_separator(
                #[trigger] uppercase_mapping(s[i]),
            ),
    ensures
        !has_separator(join_capitalized(split_words(s))),
    decreases s.len(),
{
    if s.len() == 0 {
        assert(s =~= Seq::<char>::empty());
        lemma_join_of_nothing();
    } else {
        let before = join_capitalized(split_words(s.drop_last()));
        let c = s.last();
        let upper = uppercase_mapping(c);
        assert forall|i: int| 0 <= i < s.drop_last().len() && !is_separator(
            s.drop_last()[i],
        ) implies !has_separator(#[trigger] uppercase_mapping(s.drop_last()[i])) by {
            assert(s.drop_last()[i] == s[i]);
        }
        lemma_join_has_no_separator(s.drop_last());
        lemma_join_step(s);
        if !is_separator(c) {
            assert(!has_separator(uppercase_mapping(s[s.len() - 1])));
            assert forall|i: int| 0 <= i < (before + upper).len() implies !is_separator(
                #[trigger] (before + upper)[i],
            ) by {
                if i < before.len() {
                    assert((before + upper)[i] == before[i]);
                } else {
                    assert((before + upper)[i] == upper[i - before.len()]);
                }
            }
            assert forall|i: int| 0 <= i < before.push(c).len() implies !is_separator(
                #[trigger] before.push(c)[i],
            ) by {
                if i < before.len() {
                    assert(before.push(c)[i] == before[i]);
                }
            }
        }
    }
}

/// The stem of the path's file name: what `std::path::Path::file_stem`
/// returns for the path, as a string. The contract only names that result.
#[verifier::external_body]
pub(crate) fn path_file_stem(file_path: &str) -> (stem: Option<String>)
    ensures
        match stem {
            Some(s) => file_stem_of(file_path@) == Some(s@),
            None => file_stem_of(file_path@) is None,
        },
{
    let stem = std::path::Path::new(file_path).file_stem()?;
    Some(stem.to_str()?.to_owned())
}

/// Whether the text holds a hyphen or an underscore.
fn contains_separator(s: &str) -> (found: bool)
    ensures
        found == has_separator(s@),
{
    for c in chars: s.chars()
        invariant
            chars.seq() == s@,
            forall|j: int| 0 <= j < chars.index() ==> !is_separator(#[trigger] s@[j]),
    {
        if c == '-' || c == '_' {
            return true;
        }
    }
    false
}

/// Takes the next character of a stem into the text built so far. A
/// separator adds nothing and opens a word. The first character of a word
/// adds `upper`, which stands for its uppercase mapping. Any other
/// character adds itself. The result tells whether a word opens next.
pub fn push_stem_char(out: &mut String, at_word_start: bool, c: char, upper: &str) -> (next_at_word_start:
    bool)
    ensures
        final(out)@ == (if is_separator(c) {
            old(out)@
        } else if at_word_start {
            old(out)@ + upper@
        } else {
            old(out)@.push(c)
        }),
        next_at_word_start == is_separator(c),
{
    if c == '-' || c == '_' {
        true
    } else {
        if at_word_start {
            out.append(upper);
        } else {
            push_char(out, c);
        }
        false
    }
}

/// Normalizes a file stem to PascalCase. A stem with hyphens or underscores
/// is split at them, each word gets its first character in upper case, and
/// the words are joined. A stem with neither comes back unchanged.
pub fn to_pascal_case(s: &str) -> (out: String)
    ensures
        out@ == pascal_case(s@),
{
    if !contains_separator(s) {
        return s.to_owned();
    }
    let mut out = String::new();
    let mut at_word_start = true;
    proof {
        assert(s@.take(0) =~= Seq::<char>::empty());
        lemma_join_of_nothing();
    }
    for c in chars: s.chars()
        invariant
            chars.seq() == s@,
            out@ == join_capitalized(split_words(s@.take(chars.index()))),
            at_word_start == (split_words(s@.take(chars.index())).last().len() == 0),
    {
        proof {
            let next = s@.take(chars.index() + 1);
            assert(next.drop_last() =~= s@.take(chars.index()));
            assert(next.last() == c);
            lemma_join_step(next);
        }
        let upper = if at_word_start && c != '-' && c != '_' {
            uppercase_of(c)
        } else {
            String::new()
        };
        at_word_start = push_stem_char(&mut out, at_word_start, c, upper.as_str());
    }
    assert(s@.take(s@.len() as int) =~= s@);
    out
}

/// The label that a file's path gives to the types it exports: the stem of
/// its file name in PascalCase, or `None` for a path without a file name.
pub fn get_filename_by_path(file_path: &str) -> (label: Option<String>)
    ensures
        match file_stem_of(file_path@) {
            Some(stem) => label matches Some(l) && l@ == pascal_case(stem),
            None => label is None,
        },
{
    match path_file_stem(file_path) {
        Some(stem) => Some(to_pascal_case(stem.as_str())),
        None => None,
    }
}

/// A stem of one word is its own PascalCase form, and normalizing it again
/// changes nothing.
pub proof fn lemma_pascal_case_single_word(word: Seq<char>)
    requires
        !has_separator(word),
    ensures
        pascal_case(word) == word,
        pascal_case(pascal_case(word)) == pascal_case(word),
{
}

/// Normalizing twice is normalizing once, for every stem of which no
/// character has a separator in its uppercase mapping.
pub proof fn lemma_pascal_case_idempotent(stem: Seq<char>)
    requires
        forall|i: int|
            0 <= i < stem.len() && !is_separator(stem[i]) ==> !has_separator(
                #[trigger] uppercase_mapping(stem[i]),
            ),
    ensures
        !has_separator(pascal_case(stem)),
        pascal_case(pascal_case(stem)) == pascal_case(stem),
{
    if has_separator(stem) {
        lemma_join_has_no_separator(stem);
    }
}

} // verus!
