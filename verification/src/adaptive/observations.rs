//! What a served request shows of a model.
use crate::adaptive::profile::{ProfileView, TaskProfile};
use crate::text::views;
use vstd::prelude::*;

verus! {

/// A name, where a condition holds.
pub open spec fn name_if(condition: bool, name: Seq<char>) -> Seq<Seq<char>> {
    if condition {
        seq![name]
    } else {
        Seq::empty()
    }
}

/// The capabilities that a profile asks for.
pub open spec fn capabilities_of(profile: ProfileView) -> Seq<Seq<char>> {
    name_if(profile.needs_vision, "vision"@) + name_if(profile.needs_tools, "tools"@) + name_if(
        profile.needs_reasoning,
        "reasoning"@,
    ) + name_if(profile.needs_coding, "coding"@) + name_if(
        profile.needs_long_context,
        "long_context"@,
    )
}

fn push_if(list: &mut Vec<String>, condition: bool, name: &str)
    ensures
        views(final(list)@) == views(old(list)@) + name_if(condition, name@),
{
    if condition {
        list.push(name.to_owned());
        assert(views(list@) =~= views(old(list)@) + seq![name@]);
    } else {
        assert(views(list@) =~= views(old(list)@) + Seq::empty());
    }
}

/// The capabilities that a profile asks for: each is recorded as shown, or as
/// failed, by the model that served the request.
pub fn required_capabilities(profile: &TaskProfile) -> (r: Vec<String>)
    ensures
        views(r@) == capabilities_of(profile@),
{
    let mut list: Vec<String> = Vec::new();
    assert(views(list@) =~= Seq::empty());
    push_if(&mut list, profile.needs_vision, "vision");
    assert(views(list@) =~= name_if(profile.needs_vision, "vision"@));
    push_if(&mut list, profile.needs_tools, "tools");
    push_if(&mut list, profile.needs_reasoning, "reasoning");
    push_if(&mut list, profile.needs_coding, "coding");
    push_if(&mut list, profile.needs_long_context, "long_context");
    list
}

} // verus!
