//! Finding or making the container that an operation works in.

use crate::dockerclient::{
    create_run, ps_run, start_run, Container, ContainerView, DockerClient, Error, ErrorView,
    MatchRule,
};
use crate::runtime::{attempt, follows, ReplyView, Run, Session, Step};
use crate::search::{first_index, lemma_first_index_at, lemma_first_index_none};
use crate::text::{untagged, without_tag};
use vstd::prelude::*;
use vstd::string::*;

verus! {

/// The repository that an image reference names: the reference without
/// its tag. Only a tag is left out. The registry, with its port where it
/// has one, is part of the repository, so `localhost:5000/store:1` and
/// `localhost:5000/store:2` name one repository and
/// `localhost:5000/other:1` names another.
pub open spec fn repository(image: Seq<char>) -> Seq<char> {
    untagged(image)
}

/// Whether a container that runs `running` works for `image` under `rule`.
pub open spec fn works_for(rule: MatchRule, running: Seq<char>, image: Seq<char>) -> bool {
    match rule {
        MatchRule::Repository => repository(running) == repository(image),
        MatchRule::Exact => running == image,
    }
}

/// The place among `list` of the first container that works for `image`.
pub open spec fn first_working(
    rule: MatchRule,
    list: Seq<ContainerView>,
    image: Seq<char>,
) -> Option<int> {
    first_index(list, |c: ContainerView| works_for(rule, c.image, image))
}

/// Creating a container from `image` and starting it.
pub open spec fn run_run(image: Seq<char>, unread: Seq<ReplyView>) -> Run<
    Result<ContainerView, ErrorView>,
> {
    attempt(
        create_run(image, unread),
        |e: ErrorView| e,
        |created: ContainerView, rest: Seq<ReplyView>|
            start_run(created.id, rest).map(
                |started: Result<(), ErrorView>|
                    match started {
                        Ok(_) => Ok(created),
                        Err(e) => Err(e),
                    },
            ),
    )
}

/// Finding the working container of `image`: the first running container
/// that works for the image under `rule`, or, where none runs, a new one
/// that is created from the image and started.
pub open spec fn get_or_run_run(rule: MatchRule, image: Seq<char>, unread: Seq<ReplyView>) -> Run<
    Result<ContainerView, ErrorView>,
> {
    attempt(
        ps_run(false, unread),
        |e: ErrorView| e,
        |running: Seq<ContainerView>, rest: Seq<ReplyView>|
            match first_working(rule, running, image) {
                Some(i) => Run::Finished(Ok(running[i]), rest),
                None => run_run(image, rest),
            },
    )
}

/// Tells whether a container that runs `running` works for `image`.
fn works(rule: MatchRule, running: &str, image: &str) -> (yes: bool)
    ensures
        yes == works_for(rule, running@, image@),
{
    match rule {
        MatchRule::Repository => without_tag(running) == without_tag(image),
        MatchRule::Exact => String::from_str(running) == String::from_str(image),
    }
}

/// Finds the first container that works for `image`.
fn pick(rule: MatchRule, running: &Vec<Container>, image: &str) -> (found: Option<usize>)
    ensures
        match found {
            Some(i) => i < running.len() && first_working(rule, running.deep_view(), image@)
                == Some(i as int),
            None => first_working(rule, running.deep_view(), image@) is None,
        },
{
    let ghost all = running.deep_view();
    let ghost wanted = |c: ContainerView| works_for(rule, c.image, image@);
    let mut i: usize = 0;
    while i < running.len()
        invariant
            i <= running.len(),
            all == running.deep_view(),
            wanted == |c: ContainerView| works_for(rule, c.image, image@),
            forall|j: int| 0 <= j < i ==> !wanted(#[trigger] all[j]),
        decreases running.len() - i,
    {
        if works(rule, running[i].image.as_str(), image) {
            proof {
                lemma_first_index_at(all, wanted, i as int);
            }
            return Some(i);
        }
        i += 1;
    }
    proof {
        lemma_first_index_none(all, wanted);
    }
    None
}

/// Returns the working container of `image`: the first running container
/// that works for the image under the client's rule, or a new one, created
/// from `image` and started, where there is none.
pub fn get_or_run(cli: &DockerClient, session: &mut Session, image: &str) -> (step: Step<
    Result<Container, Error>,
>)
    ensures
        follows(
            step,
            final(session).unread(),
            get_or_run_run(cli.rule(), image@, old(session).unread()),
        ),
{
    let mut running = match cli.ps(session, false) {
        Step::Ask(request) => {
            return Step::Ask(request);
        },
        Step::Done(Err(e)) => {
            return Step::Done(Err(e));
        },
        Step::Done(Ok(list)) => list,
    };
    match pick(cli.match_rule(), &running, image) {
        Some(i) => Step::Done(Ok(running.swap_remove(i))),
        None => run(cli, session, image),
    }
}

/// Creates a new container from `image`, starts it and returns it.
pub fn run(cli: &DockerClient, session: &mut Session, image: &str) -> (step: Step<
    Result<Container, Error>,
>)
    ensures
        follows(step, final(session).unread(), run_run(image@, old(session).unread())),
{
    let created = match cli.create(session, image) {
        Step::Ask(request) => {
            return Step::Ask(request);
        },
        Step::Done(Err(e)) => {
            return Step::Done(Err(e));
        },
        Step::Done(Ok(c)) => c,
    };
    match cli.start(session, created.id.as_str()) {
        Step::Ask(request) => Step::Ask(request),
        Step::Done(Ok(_)) => Step::Done(Ok(created)),
        Step::Done(Err(e)) => Step::Done(Err(e)),
    }
}

} // verus!
