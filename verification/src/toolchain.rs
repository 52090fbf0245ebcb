//! Housekeeping of the toolchains that bisections leave installed.

use crate::bisect::ToolOutput;
use crate::text::chars_of;
use crate::text::decode_text;
use crate::text::lines;
use crate::text::lines_of;
use crate::text::occurs_at;
use crate::text::starts_with;
use vstd::prelude::*;
use vstd::utf8::decode_utf8;
use vstd::utf8::valid_utf8;

verus! {

/// How many toolchains of the bisector stay installed.
pub const MAX_BISECTOR_TOOLCHAINS: usize = 15;

/// The prefix by which a toolchain of the bisector is known.
pub open spec fn bisector_prefix() -> Seq<char> {
    "bisector-"@
}

/// `name` is a toolchain that the bisector installed.
pub open spec fn is_bisector(name: Seq<char>) -> bool {
    occurs_at(name, bisector_prefix(), 0)
}

/// The toolchains of the bisector among `names`, in their order.
pub open spec fn bisectors(names: Seq<Seq<char>>) -> Seq<Seq<char>> {
    names.filter(|name: Seq<char>| is_bisector(name))
}

/// The toolchains to remove: of the bisector's toolchains all but the last
/// `MAX_BISECTOR_TOOLCHAINS`, and none where there are no more than that.
pub open spec fn for_removal(names: Seq<Seq<char>>) -> Seq<Seq<char>> {
    let kept = bisectors(names);
    if kept.len() <= MAX_BISECTOR_TOOLCHAINS {
        Seq::empty()
    } else {
        kept.take(kept.len() - MAX_BISECTOR_TOOLCHAINS)
    }
}

/// The arguments with which the toolchains are removed.
pub open spec fn removal_arguments(names: Seq<Seq<char>>) -> Seq<Seq<char>> {
    seq!["toolchain"@, "remove"@] + names
}

/// Why the toolchains could not be listed.
#[derive(Clone, Copy, Debug, PartialEq, Eq, Structural)]
pub enum ToolchainError {
    /// The listing command failed.
    ListFailed,
    /// The listing is not valid UTF-8.
    Encoding,
}

/// The toolchains that a listing names, one on each line of its standard output.
pub open spec fn listed_toolchains(listing: ToolOutput) -> Result<Seq<Seq<char>>, ToolchainError> {
    if !listing.success {
        Err(ToolchainError::ListFailed)
    } else if valid_utf8(listing.stdout@) {
        Ok(lines_of(decode_utf8(listing.stdout@)))
    } else {
        Err(ToolchainError::Encoding)
    }
}

/// Whether `name` is a toolchain that the bisector installed.
pub fn is_bisector_toolchain(name: &str) -> (b: bool)
    ensures
        b == is_bisector(name@),
{
    let chars = chars_of(name);
    let prefix = chars_of("bisector-");
    starts_with(&chars, &prefix)
}

/// Picks the toolchains to remove from the installed ones.
pub fn filter_toolchain_for_removal(toolchains: Vec<String>) -> (removed: Vec<String>)
    ensures
        removed.deep_view() == for_removal(toolchains.deep_view()),
{
    let ghost names = toolchains.deep_view();
    let ghost pred = |name: Seq<char>| is_bisector(name);
    let mut kept: Vec<String> = Vec::new();
    let mut i: usize = 0;
    proof {
        assert(names.take(0) =~= Seq::<Seq<char>>::empty());
        assert(kept.deep_view() =~= names.take(0).filter(pred));
    }
    while i < toolchains.len()
        invariant
            names == toolchains.deep_view(),
            pred == |name: Seq<char>| is_bisector(name),
            i <= toolchains@.len(),
            kept.deep_view() == names.take(i as int).filter(pred),
        decreases toolchains@.len() - i,
    {
        let keep = is_bisector_toolchain(toolchains[i].as_str());
        proof {
            let next = names.take(i + 1);
            assert(next.drop_last() =~= names.take(i as int));
            assert(next.last() == toolchains@[i as int]@);
            reveal(Seq::filter);
            assert(next.filter(pred) == if pred(next.last()) {
                next.drop_last().filter(pred).push(next.last())
            } else {
                next.drop_last().filter(pred)
            });
        }
        if keep {
            let name = toolchains[i].clone();
            let ghost before = kept.deep_view();
            let ghost added = name@;
            kept.push(name);
            proof {
                assert(kept.deep_view() =~= before.push(added));
            }
        }
        i += 1;
    }
    proof {
        assert(names.take(i as int) =~= names);
    }
    let amount = kept.len();
    if amount <= MAX_BISECTOR_TOOLCHAINS {
        let none: Vec<String> = Vec::new();
        proof {
            assert(none.deep_view() =~= Seq::<Seq<char>>::empty());
        }
        return none;
    }
    let to_remove = amount - MAX_BISECTOR_TOOLCHAINS;
    let ghost before = kept.deep_view();
    kept.truncate(to_remove);
    proof {
        assert(kept.deep_view() =~= before.take(to_remove as int));
    }
    kept
}

/// The installed toolchains that a finished listing command names.
pub fn get_toolchains(listing: ToolOutput) -> (r: Result<Vec<String>, ToolchainError>)
    ensures
        match listed_toolchains(listing) {
            Ok(names) => r is Ok && r->Ok_0.deep_view() == names,
            Err(e) => r is Err && r->Err_0 == e,
        },
{
    if !listing.success {
        return Err(ToolchainError::ListFailed);
    }
    match decode_text(listing.stdout) {
        Some(stdout) => Ok(lines(stdout.as_str())),
        None => Err(ToolchainError::Encoding),
    }
}

/// Decides the cleaning of the installed toolchains: the arguments of the command
/// that removes the ones to remove, or nothing where none is to be removed.
pub fn clean_toolchains(toolchains: Vec<String>) -> (r: Option<Vec<String>>)
    ensures
        for_removal(toolchains.deep_view()).len() == 0 ==> r is None,
        for_removal(toolchains.deep_view()).len() > 0 ==> r is Some && r->0.deep_view()
            == removal_arguments(for_removal(toolchains.deep_view())),
{
    let mut for_removal = filter_toolchain_for_removal(toolchains);
    if for_removal.len() == 0 {
        return None;
    }
    let ghost names = for_removal.deep_view();
    let mut arguments: Vec<String> = Vec::new();
    arguments.push("toolchain".to_owned());
    arguments.push("remove".to_owned());
    arguments.append(&mut for_removal);
    proof {
        assert(arguments.deep_view() =~= removal_arguments(names));
    }
    Some(arguments)
}

} // verus!
