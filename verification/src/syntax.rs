//! The tree that a fragment identifier is parsed into.
//!
//! Every node has a mathematical value, its view, in which texts are
//! sequences of characters and lists are sequences. A node that holds a
//! choice between two forms keeps one optional field for each of them; `wf`
//! says that exactly one of the two is there.
//!
//! The numbers of spatial and temporal offsets are single-precision values.
//! A node keeps such a number as its IEEE 754 bit pattern, a `u32`.

use vstd::prelude::*;

verus! {

/// A check attached to a step or to an offset: `[id=a;lang=en]` or `[2]`.
/// It is either a list of `key=value` parameters or one bare value.
#[derive(Debug, PartialEq)]
pub struct Assertion {
    parameters: Option<Vec<(String, String)>>,
    value: Option<String>,
}

/// The mathematical value of an [`Assertion`].
pub struct AssertionView {
    pub parameters: Option<Seq<(Seq<char>, Seq<char>)>>,
    pub value: Option<Seq<char>>,
}

impl AssertionView {
    /// Exactly one of the two forms is there, and a parameter list is not
    /// empty.
    pub open spec fn wf(self) -> bool {
        match (self.parameters, self.value) {
            (Some(parameters), None) => parameters.len() > 0,
            (None, Some(_)) => true,
            _ => false,
        }
    }
}

impl DeepView for Assertion {
    type V = AssertionView;

    closed spec fn deep_view(&self) -> AssertionView {
        AssertionView {
            parameters: self.parameters.deep_view(),
            value: self.value.deep_view(),
        }
    }
}

impl View for Assertion {
    type V = AssertionView;

    open spec fn view(&self) -> AssertionView {
        self.deep_view()
    }
}

/// Copies a list of parameters.
fn clone_parameters(parameters: &Vec<(String, String)>) -> (r: Vec<(String, String)>)
    ensures
        r@ == parameters@,
{
    let mut copy: Vec<(String, String)> = Vec::new();
    let mut i: usize = 0;
    while i < parameters.len()
        invariant
            i <= parameters.len(),
            copy@ == parameters@.take(i as int),
        decreases parameters.len() - i,
    {
        let pair = &parameters[i];
        copy.push((pair.0.clone(), pair.1.clone()));
        i += 1;
        assert(copy@ =~= parameters@.take(i as int));
    }
    assert(parameters@.take(i as int) =~= parameters@);
    copy
}

impl Clone for Assertion {
    fn clone(&self) -> (r: Self)
        ensures
            r@ == self@,
    {
        Assertion {
            parameters: match &self.parameters {
                Some(parameters) => Some(clone_parameters(parameters)),
                None => None,
            },
            value: match &self.value {
                Some(value) => Some(value.clone()),
                None => None,
            },
        }
    }
}

impl Assertion {
    /// An assertion with the given parameter list and bare value. It is well
    /// formed when exactly one of the two is given and a given list is not
    /// empty.
    pub fn new(parameters: Option<Vec<(String, String)>>, value: Option<String>) -> (r: Self)
        ensures
            r@ == (AssertionView {
                parameters: parameters.deep_view(),
                value: value.deep_view(),
            }),
    {
        Self { parameters, value }
    }

    /// The parameter list, if this assertion is one.
    pub fn parameters(&self) -> (r: &Option<Vec<(String, String)>>)
        ensures
            r.deep_view() == self@.parameters,
    {
        &self.parameters
    }

    /// The bare value, if this assertion is one.
    pub fn value(&self) -> (r: &Option<String>)
        ensures
            r.deep_view() == self@.value,
    {
        &self.value
    }
}

/// Copies an optional assertion.
fn clone_assertion(assertion: &Option<Assertion>) -> (r: Option<Assertion>)
    ensures
        r.deep_view() == assertion.deep_view(),
{
    match assertion {
        Some(a) => Some(a.clone()),
        None => None,
    }
}

/// Whether an optional assertion is absent or well formed.
pub open spec fn optional_wf(assertion: Option<AssertionView>) -> bool {
    match assertion {
        Some(a) => a.wf(),
        None => true,
    }
}

/// One hop from an element to one of its children: `/4` or `/4[id1]`.
#[derive(Debug, PartialEq)]
pub struct Step {
    /// The index of the child.
    pub size: u8,
    pub assertion: Option<Assertion>,
}

/// The mathematical value of a [`Step`].
pub struct StepView {
    pub size: u8,
    pub assertion: Option<AssertionView>,
}

impl StepView {
    pub open spec fn wf(self) -> bool {
        optional_wf(self.assertion)
    }
}

impl DeepView for Step {
    type V = StepView;

    open spec fn deep_view(&self) -> StepView {
        StepView { size: self.size, assertion: self.assertion.deep_view() }
    }
}

impl View for Step {
    type V = StepView;

    open spec fn view(&self) -> StepView {
        self.deep_view()
    }
}

impl Step {
    pub fn new(size: u8, assertion: Option<Assertion>) -> (r: Self)
        ensures
            r == (Step { size, assertion }),
    {
        Self { size, assertion }
    }
}

/// A position counted in characters: `:10`.
#[derive(Debug, PartialEq)]
pub struct CharacterOffset {
    /// Number of characters from the start of the element.
    pub start_at_point: u32,
    pub assertion: Option<Assertion>,
}

/// The mathematical value of a [`CharacterOffset`].
pub struct CharacterOffsetView {
    pub start_at_point: u32,
    pub assertion: Option<AssertionView>,
}

impl DeepView for CharacterOffset {
    type V = CharacterOffsetView;

    open spec fn deep_view(&self) -> CharacterOffsetView {
        CharacterOffsetView {
            start_at_point: self.start_at_point,
            assertion: self.assertion.deep_view(),
        }
    }
}

impl View for CharacterOffset {
    type V = CharacterOffsetView;

    open spec fn view(&self) -> CharacterOffsetView {
        self.deep_view()
    }
}

impl Clone for CharacterOffset {
    fn clone(&self) -> (r: Self)
        ensures
            r@ == self@,
    {
        CharacterOffset {
            start_at_point: self.start_at_point,
            assertion: clone_assertion(&self.assertion),
        }
    }
}

impl CharacterOffset {
    pub fn new(start_at_point: u32, assertion: Option<Assertion>) -> (r: Self)
        ensures
            r == (CharacterOffset { start_at_point, assertion }),
    {
        Self { start_at_point, assertion }
    }
}

/// A position in space: `@2.5:5.3`. Both numbers are bit patterns of
/// single-precision values.
#[derive(Debug, PartialEq)]
pub struct SpatialOffset {
    pub start_at_point: u32,
    pub end_at_point: Option<u32>,
    pub assertion: Option<Assertion>,
}

/// The mathematical value of a [`SpatialOffset`].
pub struct SpatialOffsetView {
    pub start_at_point: u32,
    pub end_at_point: Option<u32>,
    pub assertion: Option<AssertionView>,
}

impl DeepView for SpatialOffset {
    type V = SpatialOffsetView;

    open spec fn deep_view(&self) -> SpatialOffsetView {
        SpatialOffsetView {
            start_at_point: self.start_at_point,
            end_at_point: self.end_at_point,
            assertion: self.assertion.deep_view(),
        }
    }
}

impl View for SpatialOffset {
    type V = SpatialOffsetView;

    open spec fn view(&self) -> SpatialOffsetView {
        self.deep_view()
    }
}

impl Clone for SpatialOffset {
    fn clone(&self) -> (r: Self)
        ensures
            r@ == self@,
    {
        SpatialOffset {
            start_at_point: self.start_at_point,
            end_at_point: self.end_at_point,
            assertion: clone_assertion(&self.assertion),
        }
    }
}

impl SpatialOffset {
    pub fn new(start_at_point: u32, end_at_point: Option<u32>, assertion: Option<Assertion>) -> (r:
        Self)
        ensures
            r == (SpatialOffset { start_at_point, end_at_point, assertion }),
    {
        Self { start_at_point, end_at_point, assertion }
    }
}

/// A position in time, with an optional position in space: `~3.7` or
/// `~3.7@0.5:1.5`. The numbers are bit patterns of single-precision values.
#[derive(Debug, PartialEq)]
pub struct TemporalOffset {
    pub start_at: u32,
    pub spatial_range: Option<(u32, u32)>,
    pub assertion: Option<Assertion>,
}

/// The mathematical value of a [`TemporalOffset`].
pub struct TemporalOffsetView {
    pub start_at: u32,
    pub spatial_range: Option<(u32, u32)>,
    pub assertion: Option<AssertionView>,
}

impl DeepView for TemporalOffset {
    type V = TemporalOffsetView;

    open spec fn deep_view(&self) -> TemporalOffsetView {
        TemporalOffsetView {
            start_at: self.start_at,
            spatial_range: self.spatial_range,
            assertion: self.assertion.deep_view(),
        }
    }
}

impl View for TemporalOffset {
    type V = TemporalOffsetView;

    open spec fn view(&self) -> TemporalOffsetView {
        self.deep_view()
    }
}

impl Clone for TemporalOffset {
    fn clone(&self) -> (r: Self)
        ensures
            r@ == self@,
    {
        TemporalOffset {
            start_at: self.start_at,
            spatial_range: self.spatial_range,
            assertion: clone_assertion(&self.assertion),
        }
    }
}

impl TemporalOffset {
    pub fn new(start_at: u32, spatial_range: Option<(u32, u32)>, assertion: Option<Assertion>) -> (r:
        Self)
        ensures
            r == (TemporalOffset { start_at, spatial_range, assertion }),
    {
        Self { start_at, spatial_range, assertion }
    }
}

/// A position inside an element, in one of three coordinate systems.
#[derive(Debug, PartialEq)]
pub enum Offset {
    /// An offset introduced by a colon.
    Character(CharacterOffset),
    /// An offset introduced by an at-sign.
    Spatial(SpatialOffset),
    /// An offset introduced by a tilde.
    Temporal(TemporalOffset),
}

/// The mathematical value of an [`Offset`].
pub enum OffsetView {
    Character(CharacterOffsetView),
    Spatial(SpatialOffsetView),
    Temporal(TemporalOffsetView),
}

impl OffsetView {
    pub open spec fn wf(self) -> bool {
        match self {
            OffsetView::Character(o) => optional_wf(o.assertion),
            OffsetView::Spatial(o) => optional_wf(o.assertion),
            OffsetView::Temporal(o) => optional_wf(o.assertion),
        }
    }
}

impl DeepView for Offset {
    type V = OffsetView;

    open spec fn deep_view(&self) -> OffsetView {
        match self {
            Offset::Character(o) => OffsetView::Character(o.deep_view()),
            Offset::Spatial(o) => OffsetView::Spatial(o.deep_view()),
            Offset::Temporal(o) => OffsetView::Temporal(o.deep_view()),
        }
    }
}

impl View for Offset {
    type V = OffsetView;

    open spec fn view(&self) -> OffsetView {
        self.deep_view()
    }
}

/// What can be turned into an [`Offset`].
pub trait ToOffset {
    /// The value of the offset that `to_offset` gives.
    spec fn offset_view(&self) -> OffsetView;

    fn to_offset(&self) -> (r: Offset)
        ensures
            r@ == self.offset_view(),
    ;
}

impl ToOffset for CharacterOffset {
    open spec fn offset_view(&self) -> OffsetView {
        OffsetView::Character(self@)
    }

    fn to_offset(&self) -> (r: Offset) {
        Offset::Character(self.clone())
    }
}

impl ToOffset for SpatialOffset {
    open spec fn offset_view(&self) -> OffsetView {
        OffsetView::Spatial(self@)
    }

    fn to_offset(&self) -> (r: Offset) {
        Offset::Spatial(self.clone())
    }
}

impl ToOffset for TemporalOffset {
    open spec fn offset_view(&self) -> OffsetView {
        OffsetView::Temporal(self@)
    }

    fn to_offset(&self) -> (r: Offset) {
        Offset::Temporal(self.clone())
    }
}

/// A path into the document: one step, then a local path.
#[derive(Debug, PartialEq)]
pub struct Path {
    /// The step that the path starts with.
    pub step: Step,
    pub local_path: LocalPath,
}

/// The mathematical value of a [`Path`].
pub struct PathView {
    pub step: StepView,
    pub local_path: LocalPathView,
}

/// Steps, followed either by a redirection or by an optional offset.
///
/// `redirected_path` is there when a redirection follows the steps. If none
/// does, `offset` is there, and holds the offset if one follows them.
#[derive(Debug, PartialEq)]
pub struct LocalPath {
    pub steps: Vec<Step>,
    pub redirected_path: Option<RedirectedPath>,
    pub offset: Option<Option<Offset>>,
}

/// The mathematical value of a [`LocalPath`].
pub struct LocalPathView {
    pub steps: Seq<StepView>,
    pub redirected_path: Option<RedirectedPathView>,
    pub offset: Option<Option<OffsetView>>,
}

/// A redirection, `!`, into another document: it goes on with an offset or
/// with a path, never with both.
#[derive(Debug, PartialEq)]
pub struct RedirectedPath {
    offset: Box<Option<Offset>>,
    path: Box<Option<Path>>,
}

/// The mathematical value of a [`RedirectedPath`].
pub struct RedirectedPathView {
    pub offset: Option<OffsetView>,
    pub path: Option<Box<PathView>>,
}

impl PathView {
    pub open spec fn wf(self) -> bool
        decreases self,
    {
        self.step.wf() && self.local_path.wf()
    }
}

impl LocalPathView {
    /// Every step is well formed, and exactly one of the redirection and the
    /// optional offset is there, well formed.
    pub open spec fn wf(self) -> bool
        decreases self,
    {
        &&& forall|i: int| 0 <= i < self.steps.len() ==> (#[trigger] self.steps[i]).wf()
        &&& match (self.redirected_path, self.offset) {
            (Some(redirected), None) => redirected.wf(),
            (None, Some(Some(offset))) => offset.wf(),
            (None, Some(None)) => true,
            _ => false,
        }
    }
}

impl LocalPathView {
    /// Whether the local path has no step, no redirection and no offset.
    pub open spec fn is_empty(self) -> bool {
        self.steps.len() == 0 && self.redirected_path is None && !(self.offset matches Some(
            Some(_),
        ))
    }
}

impl RedirectedPathView {
    /// Exactly one of the offset and the path is there, well formed.
    pub open spec fn wf(self) -> bool
        decreases self,
    {
        match (self.offset, self.path) {
            (Some(offset), None) => offset.wf(),
            (None, Some(path)) => path.wf(),
            _ => false,
        }
    }
}

impl DeepView for Path {
    type V = PathView;

    open spec fn deep_view(&self) -> PathView
        decreases self,
    {
        PathView { step: self.step.deep_view(), local_path: self.local_path.deep_view() }
    }
}

impl View for Path {
    type V = PathView;

    open spec fn view(&self) -> PathView {
        self.deep_view()
    }
}

impl DeepView for LocalPath {
    type V = LocalPathView;

    open spec fn deep_view(&self) -> LocalPathView
        decreases self,
    {
        LocalPathView {
            steps: self.steps.deep_view(),
            redirected_path: match self.redirected_path {
                Some(redirected) => Some(redirected.deep_view()),
                None => None,
            },
            offset: self.offset.deep_view(),
        }
    }
}

impl View for LocalPath {
    type V = LocalPathView;

    open spec fn view(&self) -> LocalPathView {
        self.deep_view()
    }
}

impl DeepView for RedirectedPath {
    type V = RedirectedPathView;

    closed spec fn deep_view(&self) -> RedirectedPathView
        decreases self,
    {
        RedirectedPathView {
            offset: self.offset.deep_view(),
            path: match *self.path {
                Some(path) => Some(Box::new(path.deep_view())),
                None => None,
            },
        }
    }
}

impl View for RedirectedPath {
    type V = RedirectedPathView;

    open spec fn view(&self) -> RedirectedPathView {
        self.deep_view()
    }
}

impl Path {
    pub fn new(step: Step, local_path: LocalPath) -> (r: Self)
        ensures
            r == (Path { step, local_path }),
    {
        Self { step, local_path }
    }
}

impl LocalPath {
    /// A local path whose steps are followed by a redirection.
    pub fn new_with_redirected_path(steps: Vec<Step>, redirected_path: RedirectedPath) -> (r: Self)
        ensures
            r == (LocalPath { steps, redirected_path: Some(redirected_path), offset: None }),
    {
        Self { steps, redirected_path: Some(redirected_path), offset: None }
    }

    /// A local path whose steps are followed by an offset or by nothing.
    pub fn new_with_offset(steps: Vec<Step>, offset: Option<Offset>) -> (r: Self)
        ensures
            r == (LocalPath { steps, redirected_path: None, offset: Some(offset) }),
    {
        Self { steps, redirected_path: None, offset: Some(offset) }
    }
}

impl RedirectedPath {
    /// A redirection that goes on with the given offset and path. It is well
    /// formed when exactly one of the two is given.
    pub fn new(offset: Box<Option<Offset>>, path: Box<Option<Path>>) -> (r: Self)
        ensures
            r@ == (RedirectedPathView {
                offset: offset.deep_view(),
                path: match *path {
                    Some(p) => Some(Box::new(p@)),
                    None => None,
                },
            }),
    {
        Self { offset, path }
    }

    /// The offset, if the redirection goes on with one.
    pub fn offset(&self) -> (r: &Option<Offset>)
        ensures
            r.deep_view() == self@.offset,
    {
        &*self.offset
    }

    /// The path, if the redirection goes on with one.
    pub fn path(&self) -> (r: &Option<Path>)
        ensures
            match *r {
                Some(p) => self@.path == Some(Box::new(p@)),
                None => self@.path is None,
            },
    {
        &*self.path
    }
}

/// A span of the document, from one local path to another.
#[derive(Debug, PartialEq)]
pub struct Range {
    start_point: LocalPath,
    end_point: LocalPath,
}

/// The mathematical value of a [`Range`].
pub struct RangeView {
    pub start_point: LocalPathView,
    pub end_point: LocalPathView,
}

impl RangeView {
    pub open spec fn wf(self) -> bool {
        self.start_point.wf() && self.end_point.wf()
    }
}

impl DeepView for Range {
    type V = RangeView;

    closed spec fn deep_view(&self) -> RangeView {
        RangeView {
            start_point: self.start_point.deep_view(),
            end_point: self.end_point.deep_view(),
        }
    }
}

impl View for Range {
    type V = RangeView;

    open spec fn view(&self) -> RangeView {
        self.deep_view()
    }
}

impl Range {
    pub fn new(start_point: LocalPath, end_point: LocalPath) -> (r: Self)
        ensures
            r@ == (RangeView { start_point: start_point@, end_point: end_point@ }),
    {
        Self { start_point, end_point }
    }

    /// Where the span starts.
    pub fn start_point(&self) -> (r: &LocalPath)
        ensures
            r@ == self@.start_point,
    {
        &self.start_point
    }

    /// Where the span ends.
    pub fn end_point(&self) -> (r: &LocalPath)
        ensures
            r@ == self@.end_point,
    {
        &self.end_point
    }
}

/// A whole fragment identifier, `epubcfi(...)`: a path and, optionally, a
/// range.
#[derive(Debug, PartialEq)]
pub struct Fragment {
    path: Path,
    range: Option<Range>,
}

/// The mathematical value of a [`Fragment`].
pub struct FragmentView {
    pub path: PathView,
    pub range: Option<RangeView>,
}

impl FragmentView {
    pub open spec fn wf(self) -> bool {
        &&& self.path.wf()
        &&& match self.range {
            Some(range) => range.wf(),
            None => true,
        }
    }
}

impl DeepView for Fragment {
    type V = FragmentView;

    closed spec fn deep_view(&self) -> FragmentView {
        FragmentView { path: self.path.deep_view(), range: self.range.deep_view() }
    }
}

impl View for Fragment {
    type V = FragmentView;

    open spec fn view(&self) -> FragmentView {
        self.deep_view()
    }
}

impl Fragment {
    /// A fragment that holds a path and no range.
    pub fn new(path: Path) -> (r: Self)
        ensures
            r@ == (FragmentView { path: path@, range: None }),
    {
        Self { path, range: None }
    }

    /// A fragment that holds a path and a range.
    pub fn new_with_range(path: Path, range: Range) -> (r: Self)
        ensures
            r@ == (FragmentView { path: path@, range: Some(range@) }),
    {
        Self { path, range: Some(range) }
    }

    pub fn path(&self) -> (r: &Path)
        ensures
            r@ == self@.path,
    {
        &self.path
    }

    pub fn range(&self) -> (r: &Option<Range>)
        ensures
            r.deep_view() == self@.range,
    {
        &self.range
    }
}

} // verus!
