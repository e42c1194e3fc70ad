//! How a command's arguments fill the fields of the action it names: by place, with what was left
//! out at the end absent.

use vstd::prelude::*;

use crate::text;

verus! {

/// The arguments that were given. Lua sends a trailing `nil` as `null`: an omitted argument, not an
/// extra one.
pub open spec fn given(arguments: Seq<Seq<char>>) -> Seq<Seq<char>>
    decreases arguments.len(),
{
    if arguments.len() > 0 && arguments.last() == "null"@ {
        given(arguments.drop_last())
    } else {
        arguments
    }
}

/// Drops the omitted arguments, each of which is a JSON value's compact text.
pub fn given_arguments(arguments: Vec<String>) -> (kept: Vec<String>)
    ensures
        text::strings(kept@) == given(text::strings(arguments@)),
        kept@ == arguments@.subrange(0, kept@.len() as int),
{
    let ghost all = arguments@;
    let mut kept = arguments;
    assert(all.subrange(0, all.len() as int) =~= all);
    while kept.len() > 0 && text::same(kept[kept.len() - 1].as_str(), "null")
        invariant
            kept@.len() <= all.len(),
            kept@ == all.subrange(0, kept@.len() as int),
            given(text::strings(kept@)) == given(text::strings(all)),
        decreases kept@.len(),
    {
        let ghost before = kept@;
        let _ = kept.pop();
        assert(text::strings(kept@) =~= text::strings(before).drop_last());
        assert(kept@ =~= all.subrange(0, kept@.len() as int));
    }
    assert(text::strings(kept@).len() == kept@.len());
    kept
}

/// Whether an action without fields can be given these arguments; otherwise why not.
pub fn unit_variant(given_count: usize) -> (fits: Result<(), String>)
    ensures
        if given_count == 0 {
            fits is Ok
        } else {
            fits matches Err(message) && message@ == "invalid length "@ + text::decimal(given_count as nat)
                + ", expected no arguments"@
        },
{
    if given_count == 0 {
        Ok(())
    } else {
        let n = text::decimal_of(given_count as u64);
        Err("invalid length ".to_owned().concat(n.as_str()).concat(", expected no arguments"))
    }
}

/// What is given starts what was sent, ends in no omitted argument, and everything left out was
/// omitted.
pub proof fn only_trailing_omissions_are_dropped(arguments: Seq<Seq<char>>)
    ensures
        given(arguments).len() <= arguments.len(),
        given(arguments) == arguments.subrange(0, given(arguments).len() as int),
        given(arguments).len() > 0 ==> given(arguments).last() != "null"@,
        forall|i: int| given(arguments).len() <= i < arguments.len() ==> #[trigger] arguments[i] == "null"@,
    decreases arguments.len(),
{
    if arguments.len() > 0 && arguments.last() == "null"@ {
        let before = arguments.drop_last();
        only_trailing_omissions_are_dropped(before);
        assert(before.subrange(0, given(before).len() as int) =~= arguments.subrange(0, given(before).len() as int));
        assert forall|i: int| given(arguments).len() <= i < arguments.len() implies #[trigger] arguments[i]
            == "null"@ by {
            if i < before.len() {
                assert(before[i] == arguments[i]);
            }
        }
    } else {
        assert(arguments.subrange(0, arguments.len() as int) =~= arguments);
    }
}

} // verus!
