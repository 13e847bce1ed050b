//! The inline-fragment resolver: narrows resolution to the branch matching
//! a requested concrete type name. A condition naming the active variant
//! resolves the nested selection; one naming another declared variant
//! contributes nothing; one naming no declared variant at all is an error.

use vstd::prelude::*;
use crate::decl::InterfaceSpec;
use crate::decl::InterfaceSpecModel;
use crate::dispatch::ObjectBehavior;
use crate::dispatch::ResultEntry;
use crate::dispatch::SelectionSet;
use crate::decl::find_variant;
use crate::decl::names_unique;
use crate::decl::variant_names;
use crate::variant::VariantValue;
use crate::variant::lemma_find_variant_from_names;
use crate::variant::variant_index;

verus! {

/// How an inline fragment was answered: the nested selection was resolved
/// against the active variant, or the condition named another declared
/// variant and the fragment contributed nothing.
#[derive(Debug, Clone, Copy, PartialEq, Eq, Structural)]
pub enum FragmentOutcome {
    Resolved,
    Skipped,
}

/// An inline-fragment resolution error.
#[derive(Debug, PartialEq, Eq)]
pub enum FragmentError {
    /// The fragment's type condition names no declared variant at all.
    UnrecognizedInlineFragment { interface_name: String, condition: String },
    /// Resolving the nested selection against the active variant failed;
    /// the message is propagated uninterpreted.
    Resolution { message: String },
}

/// The mathematical model of a [`FragmentError`].
pub enum FragmentErrorModel {
    UnrecognizedInlineFragment { interface_name: Seq<char>, condition: Seq<char> },
    Resolution { message: Seq<char> },
}

impl View for FragmentError {
    type V = FragmentErrorModel;

    open spec fn view(&self) -> FragmentErrorModel {
        match self {
            FragmentError::UnrecognizedInlineFragment { interface_name, condition } => {
                FragmentErrorModel::UnrecognizedInlineFragment {
                    interface_name: interface_name@,
                    condition: condition@,
                }
            },
            FragmentError::Resolution { message } => FragmentErrorModel::Resolution {
                message: message@,
            },
        }
    }
}

/// The decision for an inline-fragment condition against the variant at
/// `tag`: resolve when the condition names the active variant, skip when it
/// names another declared variant, and an unrecognized-fragment error —
/// carrying the interface's name and the condition — exactly when it names
/// none.
pub open spec fn fragment_decision(
    s: InterfaceSpecModel,
    tag: int,
    condition: Seq<char>,
) -> Result<FragmentOutcome, FragmentErrorModel> {
    match find_variant(s, condition) {
        None => Err(
            FragmentErrorModel::UnrecognizedInlineFragment {
                interface_name: s.name,
                condition: condition,
            },
        ),
        Some(j) => if j == tag {
            Ok(FragmentOutcome::Resolved)
        } else {
            Ok(FragmentOutcome::Skipped)
        },
    }
}

/// A condition naming the active variant's concrete type resolves: under
/// unique variant names, the fragment decision for the name declared at
/// `tag` is to resolve against the active variant.
pub proof fn lemma_fragment_active_condition_resolves(
    s: InterfaceSpecModel,
    tag: int,
    condition: Seq<char>,
)
    requires
        names_unique(variant_names(s)),
        0 <= tag < s.variants.len(),
        condition == s.variants[tag].concrete_type_name,
    ensures
        fragment_decision(s, tag, condition) == Ok::<FragmentOutcome, FragmentErrorModel>(
            FragmentOutcome::Resolved,
        ),
{
    lemma_find_variant_from_names(s, condition, 0);
    match find_variant(s, condition) {
        None => {
            assert(s.variants[tag].concrete_type_name == condition);
        },
        Some(j) => {
            assert(variant_names(s)[j] == variant_names(s)[tag]);
            if j != tag {
                assert(names_unique(variant_names(s)));
                assert(false);
            }
        },
    }
}

/// A condition naming another declared variant's concrete type skips: the
/// fragment contributes nothing and raises no error.
pub proof fn lemma_fragment_other_variant_skips(
    s: InterfaceSpecModel,
    tag: int,
    condition: Seq<char>,
    j: int,
)
    requires
        names_unique(variant_names(s)),
        0 <= tag < s.variants.len(),
        0 <= j < s.variants.len(),
        j != tag,
        condition == s.variants[j].concrete_type_name,
    ensures
        fragment_decision(s, tag, condition) == Ok::<FragmentOutcome, FragmentErrorModel>(
            FragmentOutcome::Skipped,
        ),
{
    lemma_find_variant_from_names(s, condition, 0);
    match find_variant(s, condition) {
        None => {
            assert(s.variants[j].concrete_type_name == condition);
        },
        Some(j2) => {
            assert(variant_names(s)[j2] == variant_names(s)[j]);
            if j2 != j {
                assert(false);
            }
        },
    }
}

/// A condition naming no declared variant at all is the unrecognized
/// inline fragment error, carrying the interface's name and the condition.
pub proof fn lemma_fragment_undeclared_condition_errors(
    s: InterfaceSpecModel,
    tag: int,
    condition: Seq<char>,
)
    requires
        find_variant(s, condition) is None,
    ensures
        fragment_decision(s, tag, condition) == Err::<FragmentOutcome, FragmentErrorModel>(
            FragmentErrorModel::UnrecognizedInlineFragment {
                interface_name: s.name,
                condition: condition,
            },
        ),
{
}

/// The merge step of fragment resolution: delegates the entries that
/// selection resolution produced into the result accumulator. The existing
/// entries stay in place and the resolved entries follow them, in order.
pub fn append_entries(accumulator: &mut Vec<ResultEntry>, entries: Vec<ResultEntry>)
    ensures
        final(accumulator)@ == old(accumulator)@ + entries@,
{
    let ghost all = entries@;
    let mut rest = entries;
    while rest.len() > 0
        invariant
            accumulator@ + rest@ == old(accumulator)@ + all,
        decreases rest@.len(),
    {
        let ghost acc_before = accumulator@;
        let ghost rest_before = rest@;
        let e = rest.remove(0);
        accumulator.push(e);
        proof {
            assert(accumulator@ + rest@ =~= acc_before + rest_before);
        }
    }
    proof {
        assert(final(accumulator)@ =~= final(accumulator)@ + rest@);
    }
}

/// Resolves a type-conditioned inline fragment against a variant value.
/// When the condition names the active variant, the nested selection is
/// resolved against the held object and the resolved entries are delegated
/// into the accumulator by [`append_entries`], whose contract fixes the
/// merge exactly for every value selection resolution returns; when the
/// condition names another declared variant, the accumulator is left
/// untouched and no error is raised; when it names no declared variant, the
/// fragment is unrecognized. A failure of selection resolution is
/// propagated with the accumulator untouched.
pub fn resolve_inline_fragment<O: ObjectBehavior>(
    ispec: &InterfaceSpec,
    value: &VariantValue<O>,
    condition: &String,
    selection: &SelectionSet,
    accumulator: &mut Vec<ResultEntry>,
) -> (r: Result<FragmentOutcome, FragmentError>)
    requires
        value.wf(ispec@),
    ensures
        match r {
            Ok(o) => fragment_decision(ispec@, value.tag as int, condition@) == Ok::<
                FragmentOutcome,
                FragmentErrorModel,
            >(o),
            Err(e) => match e@ {
                FragmentErrorModel::UnrecognizedInlineFragment { .. } => fragment_decision(
                    ispec@,
                    value.tag as int,
                    condition@,
                ) == Err::<FragmentOutcome, FragmentErrorModel>(e@),
                FragmentErrorModel::Resolution { .. } => fragment_decision(
                    ispec@,
                    value.tag as int,
                    condition@,
                ) == Ok::<FragmentOutcome, FragmentErrorModel>(FragmentOutcome::Resolved),
            },
        },
        r matches Ok(FragmentOutcome::Resolved) ==> old(accumulator)@.is_prefix_of(
            final(accumulator)@,
        ),
        !(r matches Ok(FragmentOutcome::Resolved)) ==> final(accumulator)@ == old(accumulator)@,
{
    match variant_index(ispec, condition) {
        None => Err(
            FragmentError::UnrecognizedInlineFragment {
                interface_name: ispec.name.clone(),
                condition: condition.clone(),
            },
        ),
        Some(j) => {
            if j == value.tag {
                match value.object.resolve_selection(selection) {
                    Ok(entries) => {
                        append_entries(accumulator, entries);
                        proof {
                            assert(old(accumulator)@.is_prefix_of(accumulator@));
                        }
                        Ok(FragmentOutcome::Resolved)
                    },
                    Err(message) => Err(FragmentError::Resolution { message }),
                }
            } else {
                Ok(FragmentOutcome::Skipped)
            }
        },
    }
}

} // verus!
