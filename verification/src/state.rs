//! The state of an evaluation: the stack of scopes, and the answers to the
//! floating-point operations that the program has asked for.

use crate::ast::{BinaryOperation, Float, Identifier};
use crate::value::{
    distinct_keys, index_of, lemma_store_keeps_keys_apart, store, value_view, Value, ValueView,
};
use vstd::prelude::*;

verus! {

/// Why an evaluation failed.
#[derive(Debug, Clone, Copy, PartialEq, Eq, Structural)]
pub enum InterpreterError {
    Redeclaration,
    UnknownIdentifier,
    UnsupportedOperation,
    ExpectedBool,
    ExpectedFunction,
    WrongArgumentCount,
    MapKeyNotHashable,
    UpwardControlFlowReachedTopLevel,
    LoopControlFlowReachedFunction,
}

/// How two floating-point numbers compare.
#[derive(Debug, Clone, Copy, PartialEq, Eq, Structural)]
pub enum FloatOrder {
    Less,
    Equal,
    Greater,
    /// One of the two is no number.
    Unordered,
}

/// A floating-point operation that a program needs done. The library does
/// no floating-point arithmetic itself: it hands the operation out and takes
/// the answer in.
#[derive(Debug, PartialEq)]
pub enum FloatRequest {
    /// The operand with its sign changed.
    Negate(Float),
    /// `Add`, `Sub`, `Mul` or `Div` of two operands.
    Arithmetic(BinaryOperation, Float, Float),
    /// The order of two operands, for `Lt`, `LtEq`, `Gt` or `GtEq`.
    Compare(BinaryOperation, Float, Float),
}

/// The answer to a floating-point operation.
#[derive(Debug, PartialEq)]
pub enum FloatReply {
    Number(Float),
    Order(FloatOrder),
}

pub enum FloatRequestView {
    Negate(Seq<char>),
    Arithmetic(BinaryOperation, Seq<char>, Seq<char>),
    Compare(BinaryOperation, Seq<char>, Seq<char>),
}

pub enum FloatReplyView {
    Number(Seq<char>),
    Order(FloatOrder),
}

impl View for FloatRequest {
    type V = FloatRequestView;

    open spec fn view(&self) -> FloatRequestView {
        match *self {
            FloatRequest::Negate(a) => FloatRequestView::Negate(a@),
            FloatRequest::Arithmetic(op, a, b) => FloatRequestView::Arithmetic(op, a@, b@),
            FloatRequest::Compare(op, a, b) => FloatRequestView::Compare(op, a@, b@),
        }
    }
}

impl View for FloatReply {
    type V = FloatReplyView;

    open spec fn view(&self) -> FloatReplyView {
        match *self {
            FloatReply::Number(f) => FloatReplyView::Number(f@),
            FloatReply::Order(o) => FloatReplyView::Order(o),
        }
    }
}

impl Clone for FloatReply {
    fn clone(&self) -> (r: Self)
        ensures
            r@ == self@,
    {
        match self {
            FloatReply::Number(f) => FloatReply::Number(f.clone()),
            FloatReply::Order(o) => FloatReply::Order(*o),
        }
    }
}

/// Why an evaluation stopped before its end.
#[derive(Debug, PartialEq)]
pub enum Halt {
    /// The program is at fault.
    Error(InterpreterError),
    /// The program needs more loop iterations or deeper calls than the
    /// budget allows.
    OutOfBudget,
    /// The program needs the answer to a floating-point operation that the
    /// state does not hold yet.
    FloatNeeded(FloatRequest),
}

pub enum HaltView {
    Error(InterpreterError),
    OutOfBudget,
    FloatNeeded(FloatRequestView),
}

impl View for Halt {
    type V = HaltView;

    open spec fn view(&self) -> HaltView {
        match *self {
            Halt::Error(e) => HaltView::Error(e),
            Halt::OutOfBudget => HaltView::OutOfBudget,
            Halt::FloatNeeded(request) => HaltView::FloatNeeded(request@),
        }
    }
}

/// How a statement ends.
#[derive(Debug, PartialEq)]
pub enum ControlFlow {
    Normal,
    Break,
    Continue,
    Return(Value),
}

pub enum FlowView {
    Normal,
    Break,
    Continue,
    Return(ValueView),
}

impl View for ControlFlow {
    type V = FlowView;

    open spec fn view(&self) -> FlowView {
        match *self {
            ControlFlow::Normal => FlowView::Normal,
            ControlFlow::Break => FlowView::Break,
            ControlFlow::Continue => FlowView::Continue,
            ControlFlow::Return(v) => FlowView::Return(v@),
        }
    }
}

/// One frame of the stack: the variables of a block, a loop iteration or a
/// call. No name stands twice.
#[derive(Debug)]
pub struct Scope {
    pub variables: Vec<(Identifier, Value)>,
}

pub type Frame = Seq<(Seq<char>, ValueView)>;

pub open spec fn bindings_view(variables: Seq<(Identifier, Value)>) -> Frame {
    Seq::new(variables.len(), |i: int| (variables[i].0@, value_view(variables[i].1)))
}

impl View for Scope {
    type V = Frame;

    open spec fn view(&self) -> Frame {
        bindings_view(self.variables@)
    }
}

pub open spec fn scopes_view(stack: Seq<Scope>) -> Seq<Frame> {
    Seq::new(stack.len(), |i: int| stack[i]@)
}

pub open spec fn replies_view(replies: Seq<FloatReply>) -> Seq<FloatReplyView> {
    Seq::new(replies.len(), |i: int| replies[i]@)
}

#[derive(Debug)]
pub struct State {
    /// The scopes, the innermost last.
    pub stack: Vec<Scope>,
    /// The answers to the floating-point operations of the program, in the
    /// order in which it performs them.
    pub replies: Vec<FloatReply>,
    /// How many of the answers the evaluation has used.
    pub used: usize,
}

pub struct StateView {
    pub stack: Seq<Frame>,
    pub replies: Seq<FloatReplyView>,
    pub used: nat,
}

impl View for State {
    type V = StateView;

    open spec fn view(&self) -> StateView {
        StateView {
            stack: scopes_view(self.stack@),
            replies: replies_view(self.replies@),
            used: self.used as nat,
        }
    }
}

/// The innermost of the first `top` frames that binds the name, or -1.
pub open spec fn frame_of(stack: Seq<Frame>, name: Seq<char>, top: int) -> int
    decreases top,
{
    if top <= 0 || top > stack.len() {
        -1
    } else if index_of(stack[top - 1], name, 0) < stack[top - 1].len() {
        top - 1
    } else {
        frame_of(stack, name, top - 1)
    }
}

/// The frame that binds a name is one of the first `top` frames, and it has
/// the name.
pub proof fn lemma_frame_of(stack: Seq<Frame>, name: Seq<char>, top: int)
    ensures
        frame_of(stack, name, top) >= -1,
        frame_of(stack, name, top) >= 0 ==> {
            &&& frame_of(stack, name, top) < top
            &&& frame_of(stack, name, top) < stack.len()
            &&& index_of(stack[frame_of(stack, name, top)], name, 0) < stack[frame_of(
                stack,
                name,
                top,
            )].len()
        },
    decreases top,
{
    if !(top <= 0 || top > stack.len()) {
        lemma_frame_of(stack, name, top - 1);
    }
}

impl StateView {
    /// The state with an empty frame on top.
    pub open spec fn pushed(self) -> StateView {
        StateView { stack: self.stack.push(Seq::empty()), ..self }
    }

    /// The state without its innermost frame.
    pub open spec fn popped(self) -> StateView {
        StateView { stack: self.stack.drop_last(), ..self }
    }

    /// Whether the innermost frame binds the name.
    pub open spec fn declares(self, name: Seq<char>) -> bool {
        index_of(self.stack.last(), name, 0) < self.stack.last().len()
    }

    /// The state with the name bound to the value in the innermost frame.
    pub open spec fn declared(self, name: Seq<char>, value: ValueView) -> StateView {
        StateView {
            stack: self.stack.update(
                self.stack.len() - 1,
                store(self.stack.last(), name, value),
            ),
            ..self
        }
    }

    /// The frame in which a use of the name finds it, or -1.
    pub open spec fn home(self, name: Seq<char>) -> int {
        frame_of(self.stack, name, self.stack.len() as int)
    }

    /// What the name stands for. It is meant for a name that some frame
    /// binds.
    pub open spec fn value(self, name: Seq<char>) -> ValueView {
        let frame = self.stack[self.home(name)];
        frame[index_of(frame, name, 0)].1
    }

    /// The state with the value in place of what the name stood for.
    pub open spec fn assigned(self, name: Seq<char>, value: ValueView) -> StateView {
        StateView {
            stack: self.stack.update(
                self.home(name),
                store(self.stack[self.home(name)], name, value),
            ),
            ..self
        }
    }
}

impl Scope {
    pub fn new() -> (r: Self)
        ensures
            r@ == Seq::<(Seq<char>, ValueView)>::empty(),
            distinct_keys(r@),
    {
        let r = Scope { variables: Vec::new() };
        assert(r@ =~= Seq::empty());
        r
    }

    /// Finds the place of a name among the variables.
    pub fn position(&self, name: &Identifier) -> (r: usize)
        ensures
            r == index_of(self@, name@, 0),
            r <= self.variables@.len(),
    {
        let mut i: usize = 0;
        while i < self.variables.len()
            invariant
                i <= self.variables@.len(),
                index_of(self@, name@, 0) == index_of(self@, name@, i as int),
            decreases self.variables@.len() - i,
        {
            if self.variables[i].0.0 == name.0 {
                return i;
            }
            i += 1;
        }
        i
    }

    /// Binds the name to the value, in place of what it stood for.
    pub fn insert(&mut self, name: Identifier, value: Value)
        ensures
            final(self)@ == store(old(self)@, name@, value@),
            distinct_keys(old(self)@) ==> distinct_keys(final(self)@),
    {
        let ghost before = self@;
        proof {
            if distinct_keys(before) {
                lemma_store_keeps_keys_apart(before, name@, value@);
            }
        }
        let ghost pair = (name@, value@);
        let at = self.position(&name);
        if at < self.variables.len() {
            self.variables.set(at, (name, value));
            assert(self@ =~= before.update(at as int, pair));
        } else {
            self.variables.push((name, value));
            assert(self@ =~= before.push(pair));
        }
    }
}

impl State {
    /// A state without any scope and without answers.
    pub fn new() -> (r: Self)
        ensures
            r@ == (StateView { stack: Seq::empty(), replies: Seq::empty(), used: 0 }),
    {
        let r = State { stack: Vec::new(), replies: Vec::new(), used: 0 };
        assert(r@.stack =~= Seq::empty());
        assert(r@.replies =~= Seq::empty());
        r
    }

    /// A state without any scope that holds the answers to the first
    /// floating-point operations of a program.
    pub fn with_replies(replies: Vec<FloatReply>) -> (r: Self)
        ensures
            r@ == (StateView { stack: Seq::empty(), replies: replies_view(replies@), used: 0 }),
    {
        let r = State { stack: Vec::new(), replies, used: 0 };
        assert(r@.stack =~= Seq::empty());
        r
    }

    /// Enters a scope.
    pub fn push(&mut self)
        ensures
            final(self)@ == old(self)@.pushed(),
    {
        self.stack.push(Scope::new());
        assert(self@.stack =~= old(self)@.pushed().stack);
    }

    /// Leaves the innermost scope.
    pub fn pop(&mut self)
        requires
            old(self)@.stack.len() > 0,
        ensures
            final(self)@ == old(self)@.popped(),
    {
        self.stack.pop();
        assert(self@.stack =~= old(self)@.popped().stack);
    }

    /// The innermost scope.
    pub fn current_scope(&mut self) -> (r: &mut Scope)
        requires
            old(self)@.stack.len() > 0,
        ensures
            r@ == old(self)@.stack.last(),
            final(self)@ == (StateView {
                stack: old(self)@.stack.update(old(self)@.stack.len() - 1, final(r)@),
                ..old(self)@
            }),
    {
        let len = self.stack.len();
        let r = &mut self.stack[len - 1];
        proof {
            assert(scopes_view(old(self).stack@.update(len - 1, *final(r))) =~= old(
                self,
            )@.stack.update(len - 1, final(r)@));
        }
        r
    }
}

} // verus!
