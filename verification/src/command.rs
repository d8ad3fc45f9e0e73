//! From a command template and a test file to the command that is run.
//!
//! The template may hold the placeholder `{}`. Each occurrence of it is
//! replaced by the path of the test file; what comes out is split at white
//! space into the name of the program and its arguments.

use vstd::prelude::*;
use vstd::string::StringExecFns;
use crate::text::chars_of;

verus! {

/// `template` with each occurrence of `{}` replaced by `file`, the
/// occurrences found from left to right.
pub open spec fn substitution(template: Seq<char>, file: Seq<char>) -> Seq<char>
    decreases template.len(),
{
    if template.len() == 0 {
        Seq::empty()
    } else if template.len() >= 2 && template[0] == '{' && template[1] == '}' {
        file + substitution(template.skip(2), file)
    } else {
        seq![template[0]] + substitution(template.skip(1), file)
    }
}

/// Whether `{}` occurs at position `at` of `template`.
pub open spec fn placeholder_at(template: Seq<char>, at: int) -> bool {
    0 <= at && at + 1 < template.len() && template[at] == '{' && template[at + 1] == '}'
}

/// Replaces each occurrence of `{}` in `template` by `test_file`.
pub fn substitute(template: &str, test_file: &str) -> (command: String)
    ensures
        command@ == substitution(template@, test_file@),
{
    let chars = chars_of(template);
    let mut command = String::new();
    let mut i: usize = 0;
    proof {
        assert(chars@.skip(0) =~= chars@);
        assert(command@ + substitution(chars@, test_file@) =~= substitution(chars@, test_file@));
    }
    while i < chars.len()
        invariant
            i <= chars.len(),
            command@ + substitution(chars@.skip(i as int), test_file@) == substitution(
                chars@,
                test_file@,
            ),
        decreases chars.len() - i,
    {
        let ghost rest = chars@.skip(i as int);
        if chars[i] == '{' && i + 1 < chars.len() && chars[i + 1] == '}' {
            proof {
                let tail = substitution(rest.skip(2), test_file@);
                assert(rest.skip(2) =~= chars@.skip(i + 2));
                assert(command@ + (test_file@ + tail) =~= (command@ + test_file@) + tail);
            }
            command.append(test_file);
            i = i + 2;
        } else {
            proof {
                let tail = substitution(rest.skip(1), test_file@);
                assert(rest.skip(1) =~= chars@.skip(i + 1));
                assert(command@ + (seq![rest[0]] + tail) =~= command@.push(rest[0]) + tail);
            }
            command.push(chars[i]);
            i = i + 1;
        }
    }
    proof {
        assert(command@ + Seq::<char>::empty() =~= command@);
    }
    command
}

/// A template without a placeholder stands for itself, whatever the file.
pub proof fn lemma_substitution_without_placeholder(template: Seq<char>, file: Seq<char>)
    requires
        forall|at: int| !placeholder_at(template, at),
    ensures
        substitution(template, file) == template,
    decreases template.len(),
{
    if template.len() > 0 {
        assert(!placeholder_at(template, 0));
        let rest = template.skip(1);
        assert forall|at: int| !placeholder_at(rest, at) by {
            assert(!placeholder_at(template, at + 1));
        }
        lemma_substitution_without_placeholder(rest, file);
        assert(seq![template[0]] + rest =~= template);
    }
}

/// Whether `c` is white space: one of the code points that Unicode gives
/// the property White_Space.
pub open spec fn is_space(c: char) -> bool {
    let code = c as u32;
    ||| 0x09 <= code <= 0x0D
    ||| code == 0x20
    ||| code == 0x85
    ||| code == 0xA0
    ||| code == 0x1680
    ||| 0x2000 <= code <= 0x200A
    ||| code == 0x2028
    ||| code == 0x2029
    ||| code == 0x202F
    ||| code == 0x205F
    ||| code == 0x3000
}

/// Tells whether `c` is white space.
pub fn char_is_space(c: char) -> (space: bool)
    ensures
        space == is_space(c),
{
    let code = c as u32;
    (0x09 <= code && code <= 0x0D) || code == 0x20 || code == 0x85 || code == 0xA0 || code
        == 0x1680 || (0x2000 <= code && code <= 0x200A) || code == 0x2028 || code == 0x2029
        || code == 0x202F || code == 0x205F || code == 0x3000
}

/// No character of `text` is white space.
pub open spec fn is_solid(text: Seq<char>) -> bool {
    forall|k: int| 0 <= k < text.len() ==> !is_space(#[trigger] text[k])
}

/// The length of the longest prefix of `text` that holds no white space.
pub open spec fn word_len(text: Seq<char>) -> nat
    decreases text.len(),
{
    if text.len() == 0 || is_space(text[0]) {
        0
    } else {
        1 + word_len(text.skip(1))
    }
}

/// The words of `text`: its longest runs of characters that are not white
/// space, from left to right.
pub open spec fn words(text: Seq<char>) -> Seq<Seq<char>>
    decreases text.len(),
    via words_decreases
{
    if text.len() == 0 {
        Seq::empty()
    } else if is_space(text[0]) {
        words(text.skip(1))
    } else {
        let n = word_len(text) as int;
        seq![text.take(n)] + words(text.skip(n))
    }
}

#[via_fn]
proof fn words_decreases(text: Seq<char>) {
    lemma_word_len_bounded(text);
}

/// The leading word of `text` lies within `text`.
pub proof fn lemma_word_len_bounded(text: Seq<char>)
    ensures
        word_len(text) <= text.len(),
        text.len() > 0 && !is_space(text[0]) ==> word_len(text) >= 1,
    decreases text.len(),
{
    if text.len() > 0 && !is_space(text[0]) {
        lemma_word_len_bounded(text.skip(1));
    }
}

/// A run without white space that is followed by white space, or by
/// nothing, is the leading word of the whole.
proof fn lemma_word_len_of_run(run: Seq<char>, rest: Seq<char>)
    requires
        is_solid(run),
        rest.len() == 0 || is_space(rest[0]),
    ensures
        word_len(run + rest) == run.len(),
    decreases run.len(),
{
    let text = run + rest;
    if run.len() == 0 {
        assert(text =~= rest);
    } else {
        assert(text[0] == run[0]);
        assert(text.skip(1) =~= run.skip(1) + rest);
        assert(is_solid(run.skip(1))) by {
            assert forall|k: int| 0 <= k < run.skip(1).len() implies !is_space(
                #[trigger] run.skip(1)[k],
            ) by {
                assert(run.skip(1)[k] == run[k + 1]);
            }
        }
        lemma_word_len_of_run(run.skip(1), rest);
    }
}

/// A non-empty run without white space that is followed by white space, or
/// by nothing, is the first word of the whole.
proof fn lemma_words_after_run(run: Seq<char>, rest: Seq<char>)
    requires
        run.len() > 0,
        is_solid(run),
        rest.len() == 0 || is_space(rest[0]),
    ensures
        words(run + rest) == seq![run] + words(rest),
{
    let text = run + rest;
    lemma_word_len_of_run(run, rest);
    assert(text[0] == run[0]);
    assert(text.take(run.len() as int) =~= run);
    assert(text.skip(run.len() as int) =~= rest);
}

/// Splits `text` at white space into its words.
pub fn split_words(text: &str) -> (found: Vec<String>)
    ensures
        found.deep_view() == words(text@),
{
    let mut found: Vec<String> = Vec::new();
    let mut current = String::new();
    proof {
        assert(found.deep_view() =~= Seq::<Seq<char>>::empty());
        assert(current@ + text@.skip(0) =~= text@);
        assert(found.deep_view() + words(text@) =~= words(text@));
    }
    for c in it: text.chars()
        invariant
            it.seq() == text@,
            is_solid(current@),
            found.deep_view() + words(current@ + text@.skip(it.index())) == words(text@),
    {
        let ghost rest = text@.skip(it.index());
        let ghost after = text@.skip(it.index() + 1);
        proof {
            assert(rest[0] == c);
            assert(rest.skip(1) =~= after);
        }
        if char_is_space(c) {
            if current.as_str().is_empty() {
                proof {
                    assert(current@ + rest =~= rest);
                    assert(current@ + after =~= after);
                }
            } else {
                proof {
                    lemma_words_after_run(current@, rest);
                    let before = found.deep_view();
                    assert(before + (seq![current@] + words(after)) =~= before.push(current@)
                        + words(after));
                    assert(Seq::<char>::empty() + after =~= after);
                }
                let ghost before = found.deep_view();
                let ghost word = current@;
                found.push(current);
                current = String::new();
                proof {
                    assert(found.deep_view() =~= before.push(word));
                }
            }
        } else {
            proof {
                assert(current@.push(c) + after =~= current@ + rest);
            }
            current.push(c);
        }
    }
    proof {
        assert(text@.skip(text@.len() as int) =~= Seq::<char>::empty());
        assert(current@ + Seq::<char>::empty() =~= current@);
    }
    if !current.as_str().is_empty() {
        proof {
            lemma_words_after_run(current@, Seq::empty());
            let before = found.deep_view();
            assert(before + (seq![current@] + Seq::<Seq<char>>::empty()) =~= before.push(
                current@,
            ));
        }
        let ghost before = found.deep_view();
        let ghost word = current@;
        found.push(current);
        proof {
            assert(found.deep_view() =~= before.push(word));
        }
    } else {
        proof {
            assert(found.deep_view() + Seq::<Seq<char>>::empty() =~= found.deep_view());
        }
    }
    found
}

/// Each word holds at least one character and no white space.
pub proof fn lemma_words_are_solid(text: Seq<char>)
    ensures
        forall|i: int|
            0 <= i < words(text).len() ==> (#[trigger] words(text)[i]).len() > 0 && is_solid(
                words(text)[i],
            ),
    decreases text.len(),
{
    if text.len() == 0 {
    } else if is_space(text[0]) {
        lemma_words_are_solid(text.skip(1));
        assert(words(text) == words(text.skip(1)));
    } else {
        let n = word_len(text) as int;
        lemma_word_len_bounded(text);
        lemma_leading_word_is_solid(text);
        lemma_words_are_solid(text.skip(n));
        let rest = words(text.skip(n));
        assert(words(text) == seq![text.take(n)] + rest);
        assert forall|i: int| 0 <= i < words(text).len() implies (#[trigger] words(text)[i]).len()
            > 0 && is_solid(words(text)[i]) by {
            if i > 0 {
                assert(words(text)[i] == rest[i - 1]);
            } else {
                assert(words(text)[0] == text.take(n));
            }
        }
    }
}

/// The leading word of `text` holds no white space.
proof fn lemma_leading_word_is_solid(text: Seq<char>)
    ensures
        is_solid(text.take(word_len(text) as int)),
    decreases text.len(),
{
    lemma_word_len_bounded(text);
    if text.len() > 0 && !is_space(text[0]) {
        let rest = text.skip(1);
        lemma_leading_word_is_solid(rest);
        lemma_word_len_bounded(rest);
        let word = text.take(word_len(text) as int);
        let tail = rest.take(word_len(rest) as int);
        assert forall|k: int| 0 <= k < word.len() implies !is_space(#[trigger] word[k]) by {
            if k > 0 {
                assert(word[k] == tail[k - 1]);
            }
        }
    }
}

/// Text that holds nothing but white space has no words, and only such
/// text has none.
pub proof fn lemma_no_words_iff_blank(text: Seq<char>)
    ensures
        words(text).len() == 0 <==> (forall|k: int|
            0 <= k < text.len() ==> is_space(#[trigger] text[k])),
    decreases text.len(),
{
    if text.len() == 0 {
    } else if is_space(text[0]) {
        let rest = text.skip(1);
        lemma_no_words_iff_blank(rest);
        if words(text).len() == 0 {
            assert forall|k: int| 0 <= k < text.len() implies is_space(#[trigger] text[k]) by {
                if k > 0 {
                    assert(text[k] == rest[k - 1]);
                }
            }
        } else {
            let k = choose|k: int| 0 <= k < rest.len() && !is_space(#[trigger] rest[k]);
            assert(!is_space(text[k + 1]));
        }
    } else {
        assert(!is_space(text[0]));
    }
}

/// The number of words that start in `text`, read from left to right.
/// `in_word` says whether the character before `text` belongs to a word,
/// which then runs on into `text` and is not counted again.
pub open spec fn word_starts(text: Seq<char>, in_word: bool) -> nat
    decreases text.len(),
{
    if text.len() == 0 {
        0
    } else if is_space(text[0]) {
        word_starts(text.skip(1), false)
    } else {
        word_starts(text.skip(1), true) + if in_word {
            0nat
        } else {
            1nat
        }
    }
}

/// A word that has begun ends where the leading run without white space
/// ends; what follows is counted from there.
proof fn lemma_word_starts_within_word(text: Seq<char>)
    ensures
        word_len(text) <= text.len(),
        word_starts(text, true) == word_starts(text.skip(word_len(text) as int), false),
    decreases text.len(),
{
    lemma_word_len_bounded(text);
    if text.len() == 0 {
        assert(text.skip(0) =~= text);
    } else if is_space(text[0]) {
        assert(text.skip(0) =~= text);
    } else {
        let rest = text.skip(1);
        lemma_word_starts_within_word(rest);
        assert(rest.skip(word_len(rest) as int) =~= text.skip(word_len(text) as int));
    }
}

/// The number of words of a text is the number of words that start in it.
pub proof fn lemma_word_starts_counts_words(text: Seq<char>)
    ensures
        words(text).len() == word_starts(text, false),
    decreases text.len(),
{
    if text.len() == 0 {
    } else if is_space(text[0]) {
        lemma_word_starts_counts_words(text.skip(1));
    } else {
        let n = word_len(text) as int;
        lemma_word_len_bounded(text);
        lemma_word_starts_counts_words(text.skip(n));
        lemma_word_starts_within_word(text.skip(1));
        assert(text.skip(1).skip(word_len(text.skip(1)) as int) =~= text.skip(n));
    }
}

/// A run without white space starts one word where none has begun, and
/// none where one has; behind it a word has begun.
proof fn lemma_word_starts_after_run(run: Seq<char>, rest: Seq<char>, in_word: bool)
    requires
        run.len() > 0,
        is_solid(run),
    ensures
        word_starts(run + rest, in_word) == word_starts(rest, true) + if in_word {
            0nat
        } else {
            1nat
        },
    decreases run.len(),
{
    let text = run + rest;
    assert(text[0] == run[0]);
    if run.len() == 1 {
        assert(text.skip(1) =~= rest);
    } else {
        let tail = run.skip(1);
        assert(text.skip(1) =~= tail + rest);
        assert(is_solid(tail)) by {
            assert forall|k: int| 0 <= k < tail.len() implies !is_space(#[trigger] tail[k]) by {
                assert(tail[k] == run[k + 1]);
            }
        }
        lemma_word_starts_after_run(tail, rest, true);
    }
}

/// Two files that are one word each start the same number of words when
/// they are put into the same template.
proof fn lemma_word_starts_of_substitution(
    template: Seq<char>,
    first: Seq<char>,
    second: Seq<char>,
    in_word: bool,
)
    requires
        first.len() > 0,
        second.len() > 0,
        is_solid(first),
        is_solid(second),
    ensures
        word_starts(substitution(template, first), in_word) == word_starts(
            substitution(template, second),
            in_word,
        ),
    decreases template.len(),
{
    if template.len() == 0 {
    } else if template.len() >= 2 && template[0] == '{' && template[1] == '}' {
        let rest = template.skip(2);
        lemma_word_starts_of_substitution(rest, first, second, true);
        lemma_word_starts_after_run(first, substitution(rest, first), in_word);
        lemma_word_starts_after_run(second, substitution(rest, second), in_word);
    } else {
        let rest = template.skip(1);
        let head = seq![template[0]];
        lemma_word_starts_of_substitution(rest, first, second, true);
        lemma_word_starts_of_substitution(rest, first, second, false);
        let with_first = head + substitution(rest, first);
        let with_second = head + substitution(rest, second);
        assert(with_first[0] == template[0]);
        assert(with_second[0] == template[0]);
        assert(with_first.skip(1) =~= substitution(rest, first));
        assert(with_second.skip(1) =~= substitution(rest, second));
    }
}

/// Which file is put into a template does not change the number of words
/// of the command, as long as the file is one word: a command has as many
/// arguments for one such file as for another.
pub proof fn lemma_word_count_same_for_every_file(
    template: Seq<char>,
    first: Seq<char>,
    second: Seq<char>,
)
    requires
        first.len() > 0,
        second.len() > 0,
        is_solid(first),
        is_solid(second),
    ensures
        words(substitution(template, first)).len() == words(
            substitution(template, second),
        ).len(),
{
    lemma_word_starts_counts_words(substitution(template, first));
    lemma_word_starts_counts_words(substitution(template, second));
    lemma_word_starts_of_substitution(template, first, second, false);
}

/// Model of an [`Invocation`]: the program and its arguments.
pub struct CommandLine {
    pub binary: Seq<char>,
    pub args: Seq<Seq<char>>,
}

/// A command that is ready to run: the name of the program and the
/// arguments handed to it, in order.
#[derive(Debug, Clone, PartialEq, Eq)]
pub struct Invocation {
    pub binary: String,
    pub args: Vec<String>,
}

impl View for Invocation {
    type V = CommandLine;

    open spec fn view(&self) -> CommandLine {
        CommandLine { binary: self.binary@, args: self.args.deep_view() }
    }
}

/// The command that `template` stands for when it runs for `file`: the
/// first word of the instantiated template is the program, the words after
/// it are the arguments. There is none where the instantiated template
/// holds no word.
pub open spec fn command_line(template: Seq<char>, file: Seq<char>) -> Option<CommandLine> {
    let found = words(substitution(template, file));
    if found.len() == 0 {
        None
    } else {
        Some(CommandLine { binary: found[0], args: found.skip(1) })
    }
}

/// Why no command could be made of a template.
#[derive(Debug, Clone, Copy, PartialEq, Eq)]
pub enum ConfigError {
    /// The instantiated template holds no word, so there is no program to
    /// run.
    EmptyCommand,
}

/// Makes the command that `test_command` stands for when it runs for
/// `test_file`. Fails exactly when the instantiated template holds no word.
pub fn prepare(test_command: &str, test_file: &str) -> (prepared: Result<Invocation, ConfigError>)
    ensures
        match prepared {
            Ok(invocation) => command_line(test_command@, test_file@) == Some(invocation@),
            Err(error) => error == ConfigError::EmptyCommand && command_line(
                test_command@,
                test_file@,
            ) is None,
        },
{
    let command = substitute(test_command, test_file);
    let mut found = split_words(command.as_str());
    if found.len() == 0 {
        return Err(ConfigError::EmptyCommand);
    }
    let ghost all = found.deep_view();
    let binary = found.remove(0);
    proof {
        assert(found.deep_view() =~= all.skip(1));
    }
    Ok(Invocation { binary, args: found })
}

} // verus!
