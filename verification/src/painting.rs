//! How one frame gets onto its display.
//!
//! A [`Painting`] says what to do next. The caller does it and reports whether it worked; that
//! decides what follows.

use vstd::prelude::*;

use crate::layout::Element;

verus! {

/// What to do next for a frame.
#[derive(Clone, Copy, Debug, PartialEq, Eq, Structural)]
pub enum PaintAction {
    /// Find the renderer of the frame.
    FindRenderer,
    /// Make a picture for the renderer.
    MakePicture(Element),
    /// Render the pictures that were made, in the order in which they were.
    Render,
    /// Show what was rendered.
    Commit,
    /// Nothing: the frame is dealt with.
    Done,
}

/// How far a frame has come.
#[derive(Clone, Copy, Debug, PartialEq, Eq, Structural)]
pub enum PaintStage {
    /// There is no renderer yet.
    Begun,
    /// There is one, and this many pictures were tried.
    Drawing(usize),
    /// The frame is rendered.
    Rendered,
    /// The frame is dealt with.
    Over,
}

/// The state of a painting.
#[verifier::ext_equal]
pub struct PaintingView {
    /// What the frame shows.
    pub elements: Seq<Element>,
    /// How far the frame has come.
    pub stage: PaintStage,
}

impl PaintingView {
    /// What comes next.
    pub open spec fn action(self) -> PaintAction {
        match self.stage {
            PaintStage::Begun => PaintAction::FindRenderer,
            PaintStage::Drawing(tried) => if tried < self.elements.len() {
                PaintAction::MakePicture(self.elements[tried as int])
            } else {
                PaintAction::Render
            },
            PaintStage::Rendered => PaintAction::Commit,
            PaintStage::Over => PaintAction::Done,
        }
    }
}

/// The start of a frame.
pub open spec fn painting_start(elements: Seq<Element>) -> PaintingView {
    PaintingView { elements, stage: PaintStage::Begun }
}

/// The painting once the action that was due has been tried. A frame without a renderer, or one
/// that could not be rendered, is given up; a picture that could not be made is left out; a frame
/// that was rendered is committed, once.
pub open spec fn after_action(painting: PaintingView, worked: bool) -> PaintingView {
    let stage = match painting.stage {
        PaintStage::Begun => if worked {
            PaintStage::Drawing(0)
        } else {
            PaintStage::Over
        },
        PaintStage::Drawing(tried) => if tried < painting.elements.len() {
            PaintStage::Drawing((tried + 1) as usize)
        } else if worked {
            PaintStage::Rendered
        } else {
            PaintStage::Over
        },
        PaintStage::Rendered => PaintStage::Over,
        PaintStage::Over => PaintStage::Over,
    };
    PaintingView { stage, ..painting }
}

/// The painting of a frame.
pub struct Painting {
    elements: Vec<Element>,
    stage: PaintStage,
}

impl View for Painting {
    type V = PaintingView;

    closed spec fn view(&self) -> PaintingView {
        PaintingView { elements: self.elements@, stage: self.stage }
    }
}

impl Painting {
    /// Starts the painting of a frame that shows these pictures.
    pub fn new(elements: Vec<Element>) -> (painting: Painting)
        ensures
            painting@ == painting_start(elements@),
            painting@.elements == elements@,
            painting@.action() == PaintAction::FindRenderer,
    {
        Painting { elements, stage: PaintStage::Begun }
    }

    /// What to do next.
    pub fn action(&self) -> (action: PaintAction)
        ensures
            action == self@.action(),
            action matches PaintAction::MakePicture(element) ==> self@.elements.contains(element),
    {
        match self.stage {
            PaintStage::Begun => PaintAction::FindRenderer,
            PaintStage::Drawing(tried) => if tried < self.elements.len() {
                PaintAction::MakePicture(self.elements[tried])
            } else {
                PaintAction::Render
            },
            PaintStage::Rendered => PaintAction::Commit,
            PaintStage::Over => PaintAction::Done,
        }
    }

    /// Takes in whether the action that was due worked.
    pub fn report(&mut self, worked: bool)
        ensures
            final(self)@ == after_action(old(self)@, worked),
            final(self)@.elements == old(self)@.elements,
    {
        self.stage = match self.stage {
            PaintStage::Begun => if worked {
                PaintStage::Drawing(0)
            } else {
                PaintStage::Over
            },
            PaintStage::Drawing(tried) => if tried < self.elements.len() {
                PaintStage::Drawing(tried + 1)
            } else if worked {
                PaintStage::Rendered
            } else {
                PaintStage::Over
            },
            PaintStage::Rendered => PaintStage::Over,
            PaintStage::Over => PaintStage::Over,
        };
    }
}

/// The painting once actions that end like this have been tried, one after the other.
pub open spec fn after_actions(painting: PaintingView, outcomes: Seq<bool>) -> PaintingView
    decreases outcomes.len(),
{
    if outcomes.len() == 0 {
        painting
    } else {
        after_action(after_actions(painting, outcomes.drop_last()), outcomes.last())
    }
}

/// What comes next for a frame, from the start, once actions have ended like this.
pub open spec fn next_action(elements: Seq<Element>, outcomes: Seq<bool>) -> PaintAction {
    after_actions(painting_start(elements), outcomes).action()
}

/// Painting starts anew with each frame, and every report is taken in, behind those before it.
pub proof fn law_reports_add_up(elements: Seq<Element>, outcomes: Seq<bool>, worked: bool)
    ensures
        next_action(elements, Seq::empty()) == painting_start(elements).action(),
        next_action(elements, outcomes) == after_actions(
            painting_start(elements),
            outcomes,
        ).action(),
        after_actions(painting_start(elements), Seq::empty()) == painting_start(elements),
        after_actions(painting_start(elements), outcomes.push(worked)) == after_action(
            after_actions(painting_start(elements), outcomes),
            worked,
        ),
{
    assert(outcomes.push(worked).drop_last() == outcomes);
}

/// A frame asks for its renderer before anything else, whatever it shows, and never again.
pub proof fn law_renderer_comes_first(elements: Seq<Element>, outcomes: Seq<bool>)
    requires
        elements.len() <= usize::MAX,
    ensures
        painting_start(elements).action() == PaintAction::FindRenderer,
        next_action(elements, outcomes) == PaintAction::FindRenderer <==> outcomes.len() == 0,
{
    lemma_stages(elements, outcomes);
}

/// A frame is dealt with exactly where it has no renderer, or its rendering failed, or its commit
/// was tried.
pub proof fn law_frame_is_not_given_up_early(elements: Seq<Element>, outcomes: Seq<bool>)
    requires
        elements.len() <= usize::MAX,
    ensures
        next_action(elements, outcomes) == PaintAction::Done <==> {
            ||| outcomes.len() > 0 && !outcomes[0]
            ||| outcomes.len() > elements.len() + 1 && !outcomes[elements.len() as int + 1]
            ||| outcomes.len() > elements.len() + 2
        },
{
    lemma_stages(elements, outcomes);
}

/// What becomes of a frame is the same whichever of its pictures could be made: only the reports on
/// the renderer and on the rendering count.
pub proof fn law_pictures_do_not_decide(
    elements: Seq<Element>,
    outcomes: Seq<bool>,
    others: Seq<bool>,
)
    requires
        elements.len() <= usize::MAX,
        outcomes.len() == others.len(),
        outcomes.len() > 0 ==> outcomes[0] == others[0],
        outcomes.len() > elements.len() + 1 ==> outcomes[elements.len() as int + 1]
            == others[elements.len() as int + 1],
    ensures
        next_action(elements, outcomes) == next_action(elements, others),
{
    lemma_stages(elements, outcomes);
    lemma_stages(elements, others);
}

/// A frame without a renderer is passed over: whatever is reported afterwards, nothing is left to
/// do.
pub proof fn law_no_renderer_ends_the_frame(elements: Seq<Element>, outcomes: Seq<bool>)
    requires
        outcomes.len() > 0,
        !outcomes[0],
    ensures
        next_action(elements, outcomes) == PaintAction::Done,
    decreases outcomes.len(),
{
    if outcomes.len() > 1 {
        law_no_renderer_ends_the_frame(elements, outcomes.drop_last());
        assert(after_actions(painting_start(elements), outcomes.drop_last()).stage
            == PaintStage::Over);
    } else {
        assert(after_actions(painting_start(elements), outcomes.drop_last()).stage
            == PaintStage::Begun);
    }
}

/// With a renderer every picture is tried once and in order, whether or not those before it could be
/// made, and the frame is rendered, once, behind the last of them.
pub proof fn law_every_picture_is_tried_once(elements: Seq<Element>, outcomes: Seq<bool>)
    requires
        elements.len() <= usize::MAX,
    ensures
        next_action(elements, outcomes) is MakePicture <==> 0 < outcomes.len() <= elements.len()
            && outcomes[0],
        next_action(elements, outcomes) matches PaintAction::MakePicture(element) ==> element
            == elements[outcomes.len() - 1],
        next_action(elements, outcomes) == PaintAction::Render <==> outcomes.len()
            == elements.len() + 1 && outcomes[0],
{
    lemma_stages(elements, outcomes);
}

/// A frame is committed exactly where it has just been rendered: there was a renderer, every
/// picture was tried, and the report on the rendering, which is the last one, is good.
pub proof fn law_commit_follows_a_rendered_frame(elements: Seq<Element>, outcomes: Seq<bool>)
    requires
        elements.len() <= usize::MAX,
    ensures
        next_action(elements, outcomes) == PaintAction::Commit <==> outcomes.len()
            == elements.len() + 2 && outcomes[0] && outcomes.last(),
{
    lemma_stages(elements, outcomes);
}

/// A frame takes no more actions than to find a renderer, make its pictures, render and commit.
pub proof fn law_frame_ends(elements: Seq<Element>, outcomes: Seq<bool>)
    requires
        elements.len() <= usize::MAX,
        outcomes.len() >= elements.len() + 3,
    ensures
        next_action(elements, outcomes) == PaintAction::Done,
{
    lemma_stages(elements, outcomes);
}

/// The stage of a frame by the number of reports.
proof fn lemma_stages(elements: Seq<Element>, outcomes: Seq<bool>)
    requires
        elements.len() <= usize::MAX,
    ensures
        ({
            let after = after_actions(painting_start(elements), outcomes);
            &&& after.elements == elements
            &&& after.stage == (if outcomes.len() == 0 {
                PaintStage::Begun
            } else if !outcomes[0] {
                PaintStage::Over
            } else if outcomes.len() <= elements.len() + 1 {
                PaintStage::Drawing((outcomes.len() - 1) as usize)
            } else if outcomes.len() == elements.len() + 2 && outcomes.last() {
                PaintStage::Rendered
            } else {
                PaintStage::Over
            })
        }),
    decreases outcomes.len(),
{
    if outcomes.len() > 0 {
        lemma_stages(elements, outcomes.drop_last());
    }
}

} // verus!
