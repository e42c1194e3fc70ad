//! Install progress from pacman's own output: `(2/5) upgrading curl`.

use vstd::prelude::*;

use crate::capabilities::updates::backend::{InstallStep, StepView};
use crate::text;

verus! {

/// What pacman does to a package of the transaction. Hooks and checks are counted too, and are no
/// package's step.
pub open spec fn is_step_verb(verb: Seq<char>) -> bool {
    ||| verb == "installing"@
    ||| verb == "upgrading"@
    ||| verb == "downgrading"@
    ||| verb == "reinstalling"@
    ||| verb == "removing"@
}

/// The step a line stands for.
pub open spec fn step_of(line: Seq<char>) -> Option<StepView> {
    match text::strip_prefix(line, "("@) {
        None => None,
        Some(rest) => match text::split_once(rest, ")"@) {
            None => None,
            Some((counts, rest)) => {
                let words = text::words(rest);
                if words.len() < 2 || !is_step_verb(words[0]) {
                    None
                } else {
                    match counts_of(counts) {
                        Some((current, total)) => Some(StepView { current, total, package: words[1] }),
                        None => None,
                    }
                }
            },
        },
    }
}

/// ` 2/12` as its two numbers; pacman pads the first.
pub open spec fn counts_of(counts: Seq<char>) -> Option<(u32, u32)> {
    match text::split_once(counts, "/"@) {
        None => None,
        Some((current, total)) => match (
            text::parse_unsigned(text::trim(current), u32::MAX as nat),
            text::parse_unsigned(text::trim(total), u32::MAX as nat),
        ) {
            (Some(current), Some(total)) => Some((current as u32, total as u32)),
            _ => None,
        },
    }
}

fn step_verb(verb: &str) -> (is_one: bool)
    ensures
        is_one == is_step_verb(verb@),
{
    text::same(verb, "installing") || text::same(verb, "upgrading") || text::same(verb, "downgrading") || text::same(
        verb,
        "reinstalling",
    ) || text::same(verb, "removing")
}

/// Reads one line.
pub fn parse_install_step(line: &str) -> (step: Option<InstallStep>)
    ensures
        crate::capabilities::updates::backend::step_view(step) == step_of(line@),
{
    let rest = match text::str_strip_prefix(line, "(") {
        Some(rest) => rest,
        None => return None,
    };
    let (counts, rest) = match text::str_split_once(rest, ")") {
        Some(halves) => halves,
        None => return None,
    };
    let words = text::str_words(rest);
    assert(text::texts(words@).len() == words@.len());
    if words.len() < 2 {
        return None;
    }
    assert(text::texts(words@)[0] == words@[0]@ && text::texts(words@)[1] == words@[1]@);
    if !step_verb(words[0]) {
        return None;
    }
    let (current, total) = match text::str_split_once(counts, "/") {
        Some(halves) => halves,
        None => return None,
    };
    match (text::str_parse_u32(text::str_trim(current)), text::str_parse_u32(text::str_trim(total))) {
        (Some(current), Some(total)) => Some(InstallStep { current, total, package: words[1].to_owned() }),
        _ => None,
    }
}

// ---- laws ----

/// A step is a line of two counts in brackets, a verb of the five and a package.
pub proof fn a_step_is_counted_and_named(counts: Seq<char>, rest: Seq<char>, line: Seq<char>)
    requires
        !counts.contains(')'),
    ensures
        ({
            let words = text::words(rest);
            let step = step_of("("@ + counts + ")"@ + rest);
            &&& step is Some <==> words.len() >= 2 && (words[0] == "installing"@ || words[0] == "upgrading"@ || words[0]
                == "downgrading"@ || words[0] == "reinstalling"@ || words[0] == "removing"@) && counts_of(counts) is Some
            &&& step matches Some(step) ==> counts_of(counts) == Some((step.current, step.total)) && step.package
                == words[1]
        }),
        !text::starts_with(line, "("@) ==> step_of(line) is None,
        step_of("("@ + counts) is None,
{
    reveal_strlit("(");
    reveal_strlit(")");
    let line = "("@ + (counts + ")"@ + rest);
    assert(line =~= "("@ + counts + ")"@ + rest);
    text::a_stripped_prefix_is_all_that_is_missing(line, "("@, counts + ")"@ + rest);
    text::a_stripped_prefix_is_all_that_is_missing(line, "("@, counts);
    text::a_text_is_parted_at_the_first_place(counts, ")"@, rest);
}

/// The counts are two numbers around a slash, with blanks around them or not.
pub proof fn counts_are_two_numbers(current: Seq<char>, total: Seq<char>)
    requires
        !current.contains('/'),
    ensures
        ({
            let counts = counts_of(current + "/"@ + total);
            let first = text::parse_unsigned(text::trim(current), 0xffff_ffff);
            let second = text::parse_unsigned(text::trim(total), 0xffff_ffff);
            &&& counts is Some <==> first is Some && second is Some
            &&& counts matches Some(counts) ==> first == Some(counts.0 as nat) && second == Some(counts.1 as nat)
        }),
        counts_of(current) is None,
{
    reveal_strlit("/");
    text::a_text_is_parted_at_the_first_place(current, "/"@, total);
}

} // verus!
