//! Addresses inside a document.

use vstd::prelude::*;

verus! {

/// One step of a path: into an object by key, or into a sequence by position.
#[derive(Debug)]
pub enum Step {
    Key(String),
    Index(u32),
}

/// The mathematical model of a [`Step`].
pub enum StepView {
    Key(Seq<char>),
    Index(nat),
}

impl View for Step {
    type V = StepView;

    open spec fn view(&self) -> StepView {
        match self {
            Step::Key(key) => StepView::Key(key@),
            Step::Index(index) => StepView::Index(*index as nat),
        }
    }
}

impl Clone for Step {
    fn clone(&self) -> (out: Step)
        ensures
            out == *self,
    {
        match self {
            Step::Key(key) => Step::Key(key.clone()),
            Step::Index(index) => Step::Index(*index),
        }
    }
}

/// A location in a document: the steps that lead to it from the root.
#[derive(Debug)]
pub struct Path {
    steps: Vec<Step>,
}

impl View for Path {
    type V = Seq<StepView>;

    closed spec fn view(&self) -> Seq<StepView> {
        self.steps@.map_values(|step: Step| step@)
    }
}

impl Clone for Path {
    fn clone(&self) -> (out: Path)
        ensures
            out@ == self@,
    {
        let mut steps: Vec<Step> = Vec::new();
        let mut i: usize = 0;
        while i < self.steps.len()
            invariant
                0 <= i <= self.steps.len(),
                steps@ == self.steps@.take(i as int),
            decreases self.steps.len() - i,
        {
            steps.push(self.steps[i].clone());
            proof {
                assert(self.steps@.take(i + 1) =~= self.steps@.take(i as int).push(
                    self.steps@[i as int],
                ));
            }
            i += 1;
        }
        proof {
            assert(self.steps@.take(self.steps@.len() as int) =~= self.steps@);
        }
        Path { steps }
    }
}

impl Path {
    /// The path of the document's root.
    pub fn root() -> (path: Path)
        ensures
            path@ == Seq::<StepView>::empty(),
    {
        let path = Path { steps: Vec::new() };
        assert(path@ =~= Seq::<StepView>::empty());
        path
    }

    /// This path, one step further by `key`.
    pub fn key(self, key: &str) -> (path: Path)
        ensures
            path@ == self@.push(StepView::Key(key@)),
    {
        let mut steps = self.steps;
        steps.push(Step::Key(String::from_str(key)));
        let path = Path { steps };
        assert(path@ =~= self@.push(StepView::Key(key@)));
        path
    }

    /// This path, one step further by `index`.
    pub fn index(self, index: u32) -> (path: Path)
        ensures
            path@ == self@.push(StepView::Index(index as nat)),
    {
        let mut steps = self.steps;
        steps.push(Step::Index(index));
        let path = Path { steps };
        assert(path@ =~= self@.push(StepView::Index(index as nat)));
        path
    }

    /// How many steps the path has.
    pub fn len(&self) -> (n: usize)
        ensures
            n == self@.len(),
    {
        self.steps.len()
    }

    /// The step at `at`.
    pub fn step(&self, at: usize) -> (step: &Step)
        requires
            at < self@.len(),
        ensures
            step@ == self@[at as int],
    {
        &self.steps[at]
    }
}

} // verus!
