//! The state of the machine, and the operations that the host has on it.
use vstd::prelude::*;
use vstd::string::StringExecFns;
use std::rc::Rc;
use crate::api::consts::{
    LUAI_MAXSTACK, LUA_MINSTACK, LUA_TBOOLEAN, LUA_TFUNCTION, LUA_TNIL, LUA_TNONE, LUA_TNUMBER,
    LUA_TSTRING, LUA_TTABLE, LUA_TTHREAD,
};
use crate::binary::chunk::{Constant, ConstantView, Prototype, PrototypeView};
use crate::api::lua_state::LuaState as LuaAPI;
use crate::api::lua_vm::LuaVM;
use crate::binary::undump;
use crate::error::LuaError;
use crate::number::float::{int_to_float, spec_int_to_float};
use crate::state::closure::{Closure, RustFn};
use crate::state::lua_stack::{
    abs_of, can_rotate, fit, get_at, resized, rotated, set_at, top_of, valid_at, FrameView,
    LuaStack,
};
use crate::api::consts::{LUA_OPBNOT, LUA_OPUNM, LUA_RIDX_GLOBALS};
use crate::state::arith_ops::{
    arith, concat_values, spec_arith, spec_concat, spec_to_text, to_text, view_answer, with_answer,
    FloatAnswer, FloatAnswerView, FloatRequest, FloatRequestView, Outcome, OutcomeView,
};
use crate::state::compare_ops::{compare, spec_compare};
use crate::state::lua_table::{distinct_keys, is_key, LuaTable, TableView};
use crate::state::lua_value::{spec_to_boolean, spec_type_id, vals, LuaValue, Val};
use vstd::utf8::encode_utf8;

verus! {

/// The state of the machine: the frames of the calls that are under way,
/// the last being the one that runs; the tables and the functions that
/// values name by their handles; and the handle of the registry.
#[derive(Debug)]
pub struct LuaState {
    pub registry: usize,
    pub frames: Vec<LuaStack>,
    pub tables: Vec<LuaTable>,
    pub closures: Vec<Rc<Closure>>,
}

/// The state, as a mathematical value.
pub struct StateView {
    pub registry: usize,
    pub frames: Seq<FrameView>,
    pub tables: Seq<TableView>,
    pub closures: Seq<Rc<Closure>>,
}

impl View for LuaState {
    type V = StateView;

    open spec fn view(&self) -> StateView {
        StateView {
            registry: self.registry,
            frames: Seq::new(self.frames.len() as nat, |i: int| self.frames[i]@),
            tables: Seq::new(self.tables.len() as nat, |i: int| self.tables[i]@),
            closures: self.closures@,
        }
    }
}

/// The key of the registry under which the table of globals is kept.
pub open spec fn globals_key() -> Val {
    Val::Integer(LUA_RIDX_GLOBALS as i64)
}

/// The name of a type.
pub open spec fn spec_name_of_type(tp: i8) -> &'static str {
    if tp == LUA_TNONE {
        "no value"
    } else if tp == 0 {
        "nil"
    } else if tp == 1 {
        "boolean"
    } else if tp == 2 {
        "userdata"
    } else if tp == 3 {
        "number"
    } else if tp == 4 {
        "string"
    } else if tp == 5 {
        "table"
    } else if tp == 6 {
        "function"
    } else if tp == 7 {
        "userdata"
    } else if tp == 8 {
        "thread"
    } else if tp == 9 {
        "number of types"
    } else if tp == 10 {
        "proto"
    } else if tp == 11 {
        "dead key"
    } else {
        "total types"
    }
}

/// What the machine has done, and what it asks of its caller.
#[derive(Debug, Clone, PartialEq)]
pub enum Step {
    /// An instruction was executed; the next can be.
    Continue,
    /// A call has returned to its caller.
    Return,
    /// A frame was made for the function of the host that is named here.
    /// The host runs the function on the state, and then calls
    /// `return_from` with the number of its results.
    Host(RustFn),
    /// Doubles have to be computed. The caller computes them and makes the
    /// same call again with the answer.
    Float(FloatRequest),
}

/// What the machine has done, as a mathematical value.
pub enum StepView {
    Continue,
    Return,
    Host(RustFn),
    Float(FloatRequestView),
}

impl View for Step {
    type V = StepView;

    open spec fn view(&self) -> StepView {
        match self {
            Step::Continue => StepView::Continue,
            Step::Return => StepView::Return,
            Step::Host(f) => StepView::Host(*f),
            Step::Float(r) => StepView::Float(r@),
        }
    }
}

/// The function that runs the prototype `p`.
pub open spec fn script_closure(p: Rc<Prototype>) -> Rc<Closure> {
    choose|c: Rc<Closure>| c.proto == p && c.rust_fn.is_none()
}

/// Is `c` a function that runs the prototype `p`?
pub open spec fn is_script_closure(c: Rc<Closure>, p: Rc<Prototype>) -> bool {
    c.proto == p && c.rust_fn.is_none()
}

/// A function that runs a prototype is the function that runs it: there is
/// one such function.
pub proof fn lemma_script_closure(c: Rc<Closure>, p: Rc<Prototype>)
    requires
        is_script_closure(c, p),
    ensures
        c == script_closure(p),
{
    let d = script_closure(p);
    assert(d.proto == p && d.rust_fn.is_none());
    assert(*c == *d);
}

/// The value of a constant.
pub open spec fn const_val(c: ConstantView) -> Val {
    match c {
        ConstantView::Nil => Val::Nil,
        ConstantView::Boolean(b) => Val::Boolean(b),
        ConstantView::Number(n) => Val::Number(n),
        ConstantView::Integer(i) => Val::Integer(i),
        ConstantView::Str(s) => Val::Str(s),
    }
}

/// The stack with the values `given` in the places from `at` on, counted
/// from zero.
pub open spec fn store_range(stack: Seq<Val>, at: int, given: Seq<Val>) -> Seq<Val> {
    Seq::new(
        stack.len(),
        |j: int|
            if at <= j < at + given.len() {
                given[j - at]
            } else {
                stack[j]
            },
    )
}

/// The stack of a caller after the results `given` have come back. Where
/// no register was named they lie on top. Where all results were asked
/// for they lie on top, and above them the number of the register from
/// which they were to go, as an integer. Else they are in the registers
/// from `dest` on, which must exist.
pub open spec fn deliver(stack: Seq<Val>, given: Seq<Val>, nresults: int, dest: int) -> Option<
    Seq<Val>,
> {
    if dest <= 0 {
        Some(stack + given)
    } else if nresults < 0 {
        Some((stack + given).push(Val::Integer(dest as i64)))
    } else if dest - 1 + nresults <= stack.len() {
        Some(store_range(stack, dest - 1, given))
    } else {
        None
    }
}

/// Does the mode of a load admit precompiled chunks: does it hold a `b`?
pub open spec fn admits_binary(mode: Seq<u8>) -> bool {
    exists|i: int| 0 <= i < mode.len() && mode[i] == 0x62
}

/// The view of a request that may be absent.
pub open spec fn view_request(r: Option<FloatRequest>) -> Option<FloatRequestView> {
    match r {
        Some(r) => Some(r@),
        None => None,
    }
}

/// The view of a value that may be absent.
pub open spec fn view_value(v: Option<LuaValue>) -> Option<Val> {
    match v {
        Some(v) => Some(v@),
        None => None,
    }
}

/// Every index from 1 to the top names a value, and so does every index
/// from minus 1 down to minus the top; no other index does, and the type
/// found at such an index is that of no value.
pub proof fn lemma_index_validity(s: StateView, i: int)
    ensures
        1 <= i <= top_of(s.stack()) ==> s.valid(i) && s.get(i) == s.stack()[i - 1] && s.type_id(i)
            == spec_type_id(s.stack()[i - 1]),
        -top_of(s.stack()) <= i <= -1 ==> s.valid(i),
        i == 0 || i > top_of(s.stack()) || i < -top_of(s.stack()) ==> !s.valid(i) && s.type_id(i)
            == LUA_TNONE && s.get(i) == Val::Nil,
{
}

/// An index that counts from the top, minus `k` for `k` from 1 to the top,
/// is the index top minus `k` plus 1 from the bottom.
pub proof fn lemma_abs_index(s: StateView, k: int)
    requires
        1 <= k <= top_of(s.stack()),
    ensures
        abs_of(s.stack(), -k) == top_of(s.stack()) - k + 1,
        s.get(-k) == s.get(top_of(s.stack()) - k + 1),
{
}

/// What was pushed is what is read back at the top: an integer as that
/// integer, a double as that double, a boolean as that boolean, and a
/// string as that string.
pub proof fn lemma_push_round_trip(s: StateView, v: Val)
    requires
        s.wf(),
        s.stack().len() < isize::MAX,
    ensures
        s.push(v).valid(-1),
        s.push(v).get(-1) == v,
        s.push(v).type_id(-1) == spec_type_id(v),
        v is Number ==> s.push(v).number_at(-1) == Some(v->Number_0),
        v is Boolean ==> spec_to_boolean(s.push(v).get(-1)) == v->Boolean_0,
        v is Str ==> spec_to_text(s.push(v).get(-1), None) == OutcomeView::Value(v),
{
}

/// Moving the values of the stack from an index on round by `n` places,
/// and then by `n` places the other way, leaves the state as it was.
pub proof fn lemma_rotate_there_and_back(s: StateView, idx: int, n: int)
    requires
        s.wf(),
        s.rotated(idx, n).is_ok(),
    ensures
        s.rotated(idx, n).unwrap().rotated(idx, -n) == Ok::<StateView, LuaError>(s),
{
    let p = abs_of(s.stack(), idx) - 1;
    crate::state::lua_stack::lemma_rotate_back(s.stack(), p, n);
    let sa = s.rotated(idx, n).unwrap();
    assert(sa.stack() == rotated(s.stack(), p, n));
    assert(sa.stack().len() == s.stack().len());
    lemma_with_stack(s, sa.stack(), s.stack());
}

/// A call and its return, seen from the caller: the function and its
/// arguments have left the stack, and in their place lie the results, as
/// many as were asked for: nils stand in for results that are missing,
/// results beyond the number are left out, and all results are there where
/// all were asked for. This is so whatever the frame of the callee holds
/// when it returns its top `nret` values.
pub proof fn lemma_call_and_return(
    s: StateView,
    nargs: int,
    nresults: int,
    callee_stack: Seq<Val>,
    nret: int,
)
    requires
        s.wf(),
        s.called(nargs, nresults, 0).is_ok(),
        0 <= nret <= callee_stack.len(),
    ensures
        ({
            let n = s.stack().len() as int;
            let results = callee_stack.subrange(callee_stack.len() - nret, callee_stack.len() as int);
            s.called(nargs, nresults, 0).unwrap().1.with_stack(callee_stack).returned(nret) == Ok::<
                StateView,
                LuaError,
            >(s.with_stack(s.stack().subrange(0, n - nargs - 1) + fit(results, nresults)))
        }),
{
    let n = s.stack().len() as int;
    let results = callee_stack.subrange(callee_stack.len() - nret, callee_stack.len() as int);
    let sa = s.called(nargs, nresults, 0).unwrap().1;
    let sz = sa.with_stack(callee_stack);
    let expected = s.with_stack(s.stack().subrange(0, n - nargs - 1) + fit(results, nresults));
    let got = sz.returned(nret);
    assert(sz.frames.len() == s.frames.len() + 1);
    assert(got.is_ok());
    assert(got.unwrap().frames =~= expected.frames);
}

/// Another stack, put in twice, is the stack that was put in last; and the
/// stack that a state has, put in again, changes nothing.
pub proof fn lemma_with_stack(s: StateView, a: Seq<Val>, b: Seq<Val>)
    requires
        s.frames.len() > 0,
    ensures
        s.with_stack(a).with_stack(b) == s.with_stack(b),
        s.with_stack(a).stack() == a,
        s.with_stack(s.stack()) == s,
{
    assert(s.with_stack(a).with_stack(b).frames =~= s.with_stack(b).frames);
    assert(s.with_stack(s.stack()).frames =~= s.frames);
}

/// An operation did what was expected of it: it succeeded with the expected
/// state, or it failed with the expected error and left the state as it was.
pub open spec fn agrees(
    r: Result<(), LuaError>,
    pre: StateView,
    post: StateView,
    expected: Result<StateView, LuaError>,
) -> bool {
    match expected {
        Ok(s) => r.is_ok() && post == s,
        Err(e) => r == Err::<(), LuaError>(e) && post == pre,
    }
}

/// An operation did what was expected of it and returned the expected value.
pub open spec fn agrees_with<T>(
    r: Result<T, LuaError>,
    pre: StateView,
    post: StateView,
    expected: Result<(T, StateView), LuaError>,
) -> bool {
    match expected {
        Ok((v, s)) => r == Ok::<T, LuaError>(v) && post == s,
        Err(e) => r == Err::<T, LuaError>(e) && post == pre,
    }
}

/// An operation that may make a request did what was expected of it: it
/// succeeded with the expected request, if any, and state, or it failed with
/// the expected error and left the state as it was.
pub open spec fn answers(
    r: Result<Option<FloatRequest>, LuaError>,
    pre: StateView,
    post: StateView,
    expected: Result<(Option<FloatRequestView>, StateView), LuaError>,
) -> bool {
    match expected {
        Ok((req, s)) => r.is_ok() && view_request(r.unwrap()) == req && post == s,
        Err(e) => r.is_err() && r.unwrap_err() == e && post == pre,
    }
}

/// An operation that says what the machine is to do next did what was
/// expected of it.
pub open spec fn proceeds(
    r: Result<Step, LuaError>,
    pre: StateView,
    post: StateView,
    expected: Result<(StepView, StateView), LuaError>,
) -> bool {
    match expected {
        Ok((step, s)) => r.is_ok() && r.unwrap()@ == step && post == s,
        Err(e) => r.is_err() && r.unwrap_err() == e && post == pre,
    }
}

/// Moving the program counter twice is moving it to the last place.
pub proof fn lemma_with_pc(s: StateView, a: int, b: int)
    requires
        s.frames.len() > 0,
    ensures
        s.with_pc(a).with_pc(b) == s.with_pc(b),
        s.with_pc(s.frame().pc) == s,
        s.with_pc(a).stack() == s.stack(),
        s.with_pc(a).proto() == s.proto(),
{
    assert(s.with_pc(a).with_pc(b).frames =~= s.with_pc(b).frames);
    assert(s.with_pc(s.frame().pc).frames =~= s.frames);
}

impl StateView {
    /// There is a frame, the registry is a table, and every table is well formed.
    pub open spec fn wf(self) -> bool {
        &&& self.frames.len() > 0
        &&& self.registry < self.tables.len()
        &&& forall|i: int| 0 <= i < self.tables.len() ==> (#[trigger] self.tables[i]).wf()
    }

    /// The frame that runs.
    pub open spec fn frame(self) -> FrameView {
        self.frames.last()
    }

    /// The stack of the frame that runs.
    pub open spec fn stack(self) -> Seq<Val> {
        self.frame().stack
    }

    /// The state with another frame in the place of the one that runs.
    pub open spec fn with_frame(self, f: FrameView) -> StateView {
        StateView { frames: self.frames.update(self.frames.len() - 1, f), ..self }
    }

    /// The state with another stack in the frame that runs.
    pub open spec fn with_stack(self, s: Seq<Val>) -> StateView {
        self.with_frame(self.frame().with_stack(s))
    }

    /// The state with another program counter in the frame that runs.
    pub open spec fn with_pc(self, pc: int) -> StateView {
        self.with_frame(self.frame().with_pc(pc))
    }

    /// The state with another table under the handle `h`.
    pub open spec fn with_table(self, h: int, t: TableView) -> StateView {
        StateView { tables: self.tables.update(h, t), ..self }
    }

    /// The state with one more value on top of the stack.
    pub open spec fn push(self, v: Val) -> StateView {
        self.with_stack(self.stack().push(v))
    }

    /// The value at a stack index; nil where the index names none.
    pub open spec fn get(self, idx: int) -> Val {
        get_at(self.stack(), idx)
    }

    /// Does the index name a value of the stack?
    pub open spec fn valid(self, idx: int) -> bool {
        valid_at(self.stack(), idx)
    }

    /// The type of the value at a stack index; that of no value where the
    /// index names none.
    pub open spec fn type_id(self, idx: int) -> i8 {
        if self.valid(idx) {
            spec_type_id(self.get(idx))
        } else {
            LUA_TNONE
        }
    }

    /// The function under a handle, if the handle names one.
    pub open spec fn closure_of(self, v: Val) -> Option<Rc<Closure>> {
        match v {
            Val::Function(h) if h < self.closures.len() => Some(self.closures[h as int]),
            _ => None,
        }
    }

    /// The table under a handle, if the value is one that names a table.
    pub open spec fn table_of(self, v: Val) -> Option<int> {
        match v {
            Val::Table(h) if h < self.tables.len() => Some(h as int),
            _ => None,
        }
    }

    /// The value at `idx` as a double, where it is a number.
    pub open spec fn number_at(self, idx: int) -> Option<u64> {
        match self.get(idx) {
            Val::Number(n) => Some(n),
            Val::Integer(i) => Some(spec_int_to_float(i)),
            _ => None,
        }
    }

    /// The name of the host function at `idx`, where the value there is one.
    pub open spec fn rust_function(self, idx: int) -> Option<RustFn> {
        match self.closure_of(self.get(idx)) {
            Some(c) => c.rust_fn,
            None => None,
        }
    }

    /// The table of globals: what the registry holds under its key.
    pub open spec fn globals(self) -> Val {
        self.tables[self.registry as int].get(globals_key())
    }

    /// The state with a new, empty table behind the others.
    pub open spec fn add_table(self) -> StateView {
        StateView {
            tables: self.tables.push(TableView::empty()),
            ..self
        }
    }

    /// The state with one more function behind the others.
    pub open spec fn add_closure(self, c: Rc<Closure>) -> StateView {
        StateView { closures: self.closures.push(c), ..self }
    }

    /// The state without the top `n` values of the stack, of which there
    /// must be that many.
    pub open spec fn popped(self, n: int) -> Result<StateView, LuaError> {
        if 0 <= n <= self.stack().len() {
            Ok(self.with_stack(self.stack().subrange(0, self.stack().len() - n)))
        } else {
            Err(LuaError::IndexError)
        }
    }

    /// The state with the value at `from`, or nil, put at `to`, which must
    /// name a value.
    pub open spec fn copied(self, from: int, to: int) -> Result<StateView, LuaError> {
        if self.valid(to) {
            Ok(self.with_stack(set_at(self.stack(), to, self.get(from))))
        } else {
            Err(LuaError::IndexError)
        }
    }

    /// The state with the top value taken off and put at `idx`, which must
    /// name a value of what is left.
    pub open spec fn replaced(self, idx: int) -> Result<StateView, LuaError> {
        let rest = self.stack().drop_last();
        if self.stack().len() > 0 && valid_at(rest, idx) {
            Ok(self.with_stack(set_at(rest, idx, self.stack().last())))
        } else {
            Err(LuaError::IndexError)
        }
    }

    /// The state with the values from `idx` up moved `n` places round.
    pub open spec fn rotated(self, idx: int, n: int) -> Result<StateView, LuaError> {
        let p = abs_of(self.stack(), idx) - 1;
        if self.valid(idx) && can_rotate(self.stack(), p, n) {
            Ok(self.with_stack(rotated(self.stack(), p, n)))
        } else {
            Err(LuaError::IndexError)
        }
    }

    /// The state without the value at `idx`; those above it move down.
    pub open spec fn removed(self, idx: int) -> Result<StateView, LuaError> {
        match self.rotated(idx, -1) {
            Ok(s) => s.popped(1),
            Err(e) => Err(e),
        }
    }

    /// The state with the stack cut, or filled with nils, to the height `idx`.
    pub open spec fn with_top(self, idx: int) -> Result<StateView, LuaError> {
        let n = abs_of(self.stack(), idx);
        if n >= 0 {
            Ok(self.with_stack(resized(self.stack(), n)))
        } else {
            Err(LuaError::IndexError)
        }
    }

    /// The value under the key `k` of the table that `t` names; none where
    /// `t` names no table.
    pub open spec fn table_get(self, t: Val, k: Val) -> Option<Val> {
        match self.table_of(t) {
            Some(h) => Some(self.tables[h].get(k)),
            None => None,
        }
    }

    /// The state after `v` was put under the key `k` of the table that `t`
    /// names; none where `t` names no table or `k` is no key.
    pub open spec fn table_put(self, t: Val, k: Val, v: Val) -> Option<StateView> {
        match self.table_of(t) {
            Some(h) => if is_key(k) {
                Some(self.with_table(h, self.tables[h].put(k, v)))
            } else {
                None
            },
            None => None,
        }
    }

    /// The state after the value under `k` of the table `t` has taken the
    /// place of the top `drop` values of the stack, with the type of that
    /// value.
    pub open spec fn fetched(self, t: Val, k: Val, drop: int) -> Result<(i8, StateView), LuaError> {
        if self.stack().len() < drop {
            Err(LuaError::IndexError)
        } else {
            match self.table_get(t, k) {
                Some(v) => Ok(
                    (
                        spec_type_id(v),
                        self.with_stack(
                            self.stack().subrange(0, self.stack().len() - drop).push(v),
                        ),
                    ),
                ),
                None => Err(LuaError::TableError),
            }
        }
    }

    /// The state after `v` was put under `k` in the table `t` and the top
    /// `drop` values were taken off the stack.
    pub open spec fn stored(self, t: Val, k: Val, v: Val, drop: int) -> Result<StateView, LuaError> {
        if self.stack().len() < drop {
            Err(LuaError::IndexError)
        } else {
            match self.table_put(t, k, v) {
                Some(s) => s.popped(drop),
                None => Err(LuaError::TableError),
            }
        }
    }

    /// The state after the arithmetic operator `op` was applied to the top
    /// values of the stack, two of them or, for a unary operator, one, and
    /// the result has taken their place; or the request to compute it.
    pub open spec fn arith(self, op: u8, ans: Option<FloatAnswerView>) -> Result<
        (Option<FloatRequestView>, StateView),
        LuaError,
    > {
        let n = self.stack().len() as int;
        let unary = op == LUA_OPUNM || op == LUA_OPBNOT;
        if n < 1 || (!unary && n < 2) {
            Err(LuaError::IndexError)
        } else {
            let b = self.stack()[n - 1];
            let a = if unary {
                b
            } else {
                self.stack()[n - 2]
            };
            let rest = if unary {
                self.stack().subrange(0, n - 1)
            } else {
                self.stack().subrange(0, n - 2)
            };
            match spec_arith(a, b, op, ans) {
                OutcomeView::Value(v) => Ok((None, self.with_stack(rest.push(v)))),
                OutcomeView::Request(r) => Ok((Some(r), self)),
                OutcomeView::Fail => Err(LuaError::ArithError),
            }
        }
    }

    /// The result of comparing the values at two indices: false where an
    /// index names no value.
    pub open spec fn compare(self, idx1: int, idx2: int, op: u8) -> Result<bool, LuaError> {
        if !self.valid(idx1) || !self.valid(idx2) {
            Ok(false)
        } else {
            match spec_compare(self.get(idx1), self.get(idx2), op) {
                Some(r) => Ok(r),
                None => Err(LuaError::CompareError),
            }
        }
    }

    /// The length of a value: the number of bytes of a string, the length of
    /// the array part of a table.
    pub open spec fn length_of(self, v: Val) -> Option<i64> {
        match v {
            Val::Str(s) => Some((encode_utf8(s).len() as usize) as i64),
            Val::Table(h) if h < self.tables.len() => Some(
                (self.tables[h as int].arr.len() as usize) as i64,
            ),
            _ => None,
        }
    }

    /// The state with the length of the value at `idx` on top of the stack.
    pub open spec fn with_len(self, idx: int) -> Result<StateView, LuaError> {
        match self.length_of(self.get(idx)) {
            Some(n) => Ok(self.push(Val::Integer(n))),
            None => Err(LuaError::TypeError),
        }
    }

    /// The state after the top `n` values of the stack were joined to one
    /// string, which has taken their place; or the request to write a double
    /// among them, the text of an answer having taken the place of the first.
    pub open spec fn concat(self, n: int, ans: Option<FloatAnswerView>) -> Result<
        (Option<FloatRequestView>, StateView),
        LuaError,
    > {
        let len = self.stack().len() as int;
        if n == 0 {
            Ok((None, self.push(Val::Str(Seq::empty()))))
        } else if n < 2 {
            Ok((None, self))
        } else if n > len {
            Err(LuaError::IndexError)
        } else {
            let rest = self.stack().subrange(0, len - n);
            let ops = self.stack().subrange(len - n, len);
            match spec_concat(ops, ans) {
                OutcomeView::Value(v) => Ok((None, self.with_stack(rest.push(v)))),
                OutcomeView::Request(r) => Ok((Some(r), self.with_stack(rest + with_answer(ops, ans)))),
                OutcomeView::Fail => Err(LuaError::TypeError),
            }
        }
    }

    /// The state with one more frame, which is the one that runs.
    pub open spec fn with_new_frame(self, f: FrameView) -> StateView {
        StateView { frames: self.frames.push(f), ..self }
    }

    /// The state with `v` in the register `a`, which must exist. Registers
    /// count from one.
    pub open spec fn with_reg(self, a: int, v: Val) -> Result<StateView, LuaError> {
        if self.valid(a) {
            Ok(self.with_stack(set_at(self.stack(), a, v)))
        } else {
            Err(LuaError::IndexError)
        }
    }

    /// The state with the values `given` in the registers from `a` on, all
    /// of which must exist.
    pub open spec fn with_regs(self, a: int, given: Seq<Val>) -> Result<StateView, LuaError> {
        if 1 <= a && a - 1 + given.len() <= self.stack().len() {
            Ok(self.with_stack(store_range(self.stack(), a - 1, given)))
        } else {
            Err(LuaError::IndexError)
        }
    }

    /// The values of the registers from `a` up to, but without, `b`; nil for
    /// a register that does not exist.
    pub open spec fn regs(self, a: int, b: int) -> Seq<Val> {
        Seq::new(
            if b >= a {
                (b - a) as nat
            } else {
                0
            },
            |j: int| self.get(a + j),
        )
    }

    /// The state with a new frame that runs the function `c` on the
    /// arguments `args`, and what the machine is to do next; see `called`.
    pub open spec fn entered(self, c: Rc<Closure>, args: Seq<Val>, nresults: int, dest: int) -> (
        StepView,
        StateView,
    ) {
        match c.rust_fn {
            Some(f) => (
                StepView::Host(f),
                self.with_new_frame(
                    FrameView { stack: args, closure: c, varargs: Seq::empty(), pc: 0, nresults, dest },
                ),
            ),
            None => (
                StepView::Continue,
                self.with_new_frame(
                    FrameView {
                        stack: resized(
                            fit(args, c.proto.num_params as int),
                            c.proto.max_stack_size as int,
                        ),
                        closure: c,
                        varargs: if args.len() > c.proto.num_params && c.proto.is_vararg == 1 {
                            args.subrange(c.proto.num_params as int, args.len() as int)
                        } else {
                            Seq::empty()
                        },
                        pc: 0,
                        nresults,
                        dest,
                    },
                ),
            ),
        }
    }

    /// The state after a call was begun: the function lies on the stack
    /// below its `nargs` arguments; both leave the stack, and a new frame
    /// runs the function. The frame of a function of the host holds the
    /// arguments. That of another function holds its registers: the first
    /// arguments in the registers of the parameters, nils where arguments
    /// are missing, and the arguments beyond the parameters aside where the
    /// function takes any number of them. The frame remembers that the
    /// caller expects `nresults` results, from register `dest` on.
    pub open spec fn called(self, nargs: int, nresults: int, dest: int) -> Result<
        (StepView, StateView),
        LuaError,
    > {
        let n = self.stack().len() as int;
        if nargs < 0 || n < nargs + 1 {
            Err(LuaError::IndexError)
        } else {
            let args = self.stack().subrange(n - nargs, n);
            let caller = self.with_stack(self.stack().subrange(0, n - nargs - 1));
            match self.closure_of(self.stack()[n - nargs - 1]) {
                None => Err(LuaError::TypeError),
                Some(c) => Ok(caller.entered(c, args, nresults, dest)),
            }
        }
    }

    /// The state after the frame that runs has returned its top `nret`
    /// values to the frame below it.
    pub open spec fn returned(self, nret: int) -> Result<StateView, LuaError> {
        let k = self.frames.len() as int;
        if k < 2 {
            Err(LuaError::IndexError)
        } else {
            let callee = self.frames[k - 1];
            let caller = self.frames[k - 2];
            let len = callee.stack.len() as int;
            if nret < 0 || nret > len {
                Err(LuaError::IndexError)
            } else {
                match deliver(
                    caller.stack,
                    fit(callee.stack.subrange(len - nret, len), callee.nresults),
                    callee.nresults,
                    callee.dest,
                ) {
                    Some(stack) => Ok(
                        StateView {
                            frames: self.frames.subrange(0, k - 2).push(caller.with_stack(stack)),
                            ..self
                        },
                    ),
                    None => Err(LuaError::IndexError),
                }
            }
        }
    }

    /// Can the frame below the one that runs take the results that it
    /// expects in its registers: is there no such frame, or does it want
    /// them on its stack, or do the registers exist?
    pub open spec fn results_fit(self) -> bool {
        let k = self.frames.len() as int;
        k >= 2 && self.frames[k - 1].dest > 0 && self.frames[k - 1].nresults >= 0
            ==> self.frames[k - 1].dest - 1 + self.frames[k - 1].nresults <= self.frames[k
            - 2].stack.len()
    }

    /// The prototype that the frame that runs executes.
    pub open spec fn proto(self) -> Rc<Prototype> {
        self.frame().closure.proto
    }

    /// The constant with the index `i`, if the pool holds one.
    pub open spec fn konst(self, i: int) -> Option<Val> {
        if 0 <= i < self.proto().constants.len() {
            Some(const_val(self.proto().constants[i]@))
        } else {
            None
        }
    }

    /// The value that a register-or-constant operand names: the constant
    /// with the index in its low eight bits where it is above 255, else the
    /// register with its number.
    pub open spec fn rk(self, n: int) -> Option<Val> {
        if n > 0xff {
            self.konst(n % 0x100)
        } else {
            Some(self.get(n + 1))
        }
    }

    /// The state with the program counter moved by `n`.
    pub open spec fn jumped(self, n: int) -> Result<StateView, LuaError> {
        if isize::MIN <= self.frame().pc + n <= isize::MAX {
            Ok(self.with_pc(self.frame().pc + n))
        } else {
            Err(LuaError::IndexError)
        }
    }

    /// The instruction at the program counter, and the state with the
    /// counter behind it.
    pub open spec fn fetched_word(self) -> Result<(u32, StateView), LuaError> {
        let pc = self.frame().pc;
        if 0 <= pc < self.proto().code.len() && pc < isize::MAX {
            Ok((self.proto().code[pc], self.with_pc(pc + 1)))
        } else {
            Err(LuaError::CorruptChunk)
        }
    }

    /// The state with the constant `i` on top of the stack.
    pub open spec fn with_const(self, i: int) -> Result<StateView, LuaError> {
        match self.konst(i) {
            Some(v) => Ok(self.push(v)),
            None => Err(LuaError::CorruptChunk),
        }
    }

    /// The state with the value of a register-or-constant operand on top of
    /// the stack.
    pub open spec fn with_rk(self, n: int) -> Result<StateView, LuaError> {
        match self.rk(n) {
            Some(v) => Ok(self.push(v)),
            None => Err(LuaError::CorruptChunk),
        }
    }

    /// The state with a new function, which runs the nested prototype with
    /// the index `idx`, on top of the stack.
    pub open spec fn with_proto(self, idx: int) -> Result<StateView, LuaError> {
        if 0 <= idx < self.proto().protos.len() {
            Ok(
                self.add_closure(script_closure(self.proto().protos[idx])).push(
                    Val::Function(self.closures.len() as usize),
                ),
            )
        } else {
            Err(LuaError::CorruptChunk)
        }
    }

    /// The state with the first `n` extra arguments of the frame that runs
    /// on top of the stack, nils where they are fewer; all of them where `n`
    /// is below zero.
    pub open spec fn with_varargs(self, n: int) -> StateView {
        self.with_stack(self.stack() + fit(self.frame().varargs, n))
    }

    /// A new state: an empty registry with an empty table of globals in it,
    /// and one empty frame for the function `c`.
    pub open spec fn fresh(c: Rc<Closure>) -> StateView {
        StateView {
            registry: 0,
            frames: seq![FrameView::empty(c)],
            tables: seq![
                TableView::empty().put(globals_key(), Val::Table(1)),
                TableView::empty(),
            ],
            closures: Seq::empty(),
        }
    }

    /// A new state for running `c`: an empty registry and one empty frame.
    pub open spec fn fresh_for(c: Rc<Closure>) -> StateView {
        StateView {
            registry: 0,
            frames: seq![FrameView::empty(c)],
            tables: seq![TableView::empty()],
            closures: Seq::empty(),
        }
    }
}

/// Does the mode hold the letter `b`?
fn has_letter_b(mode: &str) -> (r: bool)
    ensures
        r == admits_binary(encode_utf8(mode@)),
{
    let b = mode.as_bytes();
    let mut i: usize = 0;
    while i < b.len()
        invariant
            i <= b.len(),
            b@ == encode_utf8(mode@),
            forall|j: int| 0 <= j < i ==> b@[j] != 0x62,
        decreases b.len() - i,
    {
        if b[i] == 0x62 {
            return true;
        }
        i += 1;
    }
    false
}

impl LuaState {
    /// The state is well formed, and the entries of every table have distinct keys.
    pub open spec fn wf(&self) -> bool {
        &&& self@.wf()
        &&& forall|i: int| 0 <= i < self.tables.len() ==> distinct_keys((#[trigger] self.tables[i]).map@)
    }

    /// A new state with a registry, a table of globals in it, and one empty
    /// frame with room for twenty values.
    pub fn new() -> (r: LuaState)
        ensures
            r.wf(),
            r@ == StateView::fresh(r@.frame().closure),
            r@.frame().closure.rust_fn.is_none(),
            r@.frame().closure.proto.view() == PrototypeView::empty(),
    {
        let mut registry = LuaTable::new(0, 0);
        let globals = LuaTable::new(0, 0);
        let put = registry.put(LuaValue::Integer(LUA_RIDX_GLOBALS as i64), LuaValue::Table(1));
        assert(put.is_ok());
        let closure = Rc::new(Closure::new_fake_closure());
        let frame = LuaStack::new(LUA_MINSTACK, closure);
        let mut frames: Vec<LuaStack> = Vec::new();
        frames.push(frame);
        let mut tables: Vec<LuaTable> = Vec::new();
        tables.push(registry);
        tables.push(globals);
        let r = LuaState { registry: 0, frames, tables, closures: Vec::new() };
        assert(r@.frames =~= seq![FrameView::empty(closure)]);
        assert(r@.tables =~= StateView::fresh(closure).tables);
        r
    }

    /// A new state whose one frame runs `proto`, with room for its registers.
    pub fn new_with_proto(proto: Rc<Prototype>) -> (r: LuaState)
        ensures
            r.wf(),
            r@ == StateView::fresh_for(r@.frame().closure),
            r@.frame().closure.proto == proto,
            r@.frame().closure.rust_fn.is_none(),
    {
        let registry = LuaTable::new(0, 0);
        let size = proto.max_stack_size as usize;
        let closure = Rc::new(Closure::new(proto));
        let frame = LuaStack::new(size, closure);
        let mut frames: Vec<LuaStack> = Vec::new();
        frames.push(frame);
        let mut tables: Vec<LuaTable> = Vec::new();
        tables.push(registry);
        let r = LuaState { registry: 0, frames, tables, closures: Vec::new() };
        assert(r@.frames =~= seq![FrameView::empty(closure)]);
        assert(r@.tables =~= StateView::fresh_for(closure).tables);
        r
    }

    /// The frame that runs.
    pub fn stack(&self) -> (r: &LuaStack)
        requires
            self.wf(),
        ensures
            r@ == self@.frame(),
    {
        &self.frames[self.frames.len() - 1]
    }

    /// Puts a frame on top of the others: it is the one that runs now.
    pub fn push_frame(&mut self, frame: LuaStack)
        requires
            old(self).wf(),
        ensures
            final(self).wf(),
            final(self)@ == (StateView { frames: old(self)@.frames.push(frame@), ..old(self)@ }),
    {
        self.frames.push(frame);
        assert(self@.frames =~= old(self)@.frames.push(frame@));
        assert(self@.tables =~= old(self)@.tables);
    }

    /// Takes the frame that runs off, unless it is the only one.
    pub fn pop_frame(&mut self) -> (r: Result<LuaStack, LuaError>)
        requires
            old(self).wf(),
        ensures
            final(self).wf(),
            match r {
                Ok(f) => old(self)@.frames.len() > 1 && f@ == old(self)@.frame() && final(self)@ == (
                StateView { frames: old(self)@.frames.drop_last(), ..old(self)@ }),
                Err(e) => e == LuaError::IndexError && old(self)@.frames.len() == 1 && final(self)@
                    == old(self)@,
            },
    {
        if self.frames.len() <= 1 {
            return Err(LuaError::IndexError);
        }
        match self.frames.pop() {
            Some(f) => {
                assert(self@.frames =~= old(self)@.frames.drop_last());
                assert(self@.tables =~= old(self)@.tables);
                Ok(f)
            },
            None => Err(LuaError::IndexError),
        }
    }

    /// Puts a value on top of the stack.
    pub fn push_val(&mut self, v: LuaValue)
        requires
            old(self).wf(),
        ensures
            final(self).wf(),
            final(self)@ == old(self)@.push(v@),
    {
        let n = self.frames.len() - 1;
        self.frames[n].push(v);
        assert(self@.frames =~= old(self)@.push(v@).frames);
        assert(self@.tables =~= old(self)@.tables);
    }

    /// Takes the top value off the stack.
    pub fn pop_val(&mut self) -> (r: Result<LuaValue, LuaError>)
        requires
            old(self).wf(),
        ensures
            final(self).wf(),
            match r {
                Ok(v) => old(self)@.stack().len() > 0 && v@ == old(self)@.stack().last() && final(self)@ == old(self)@.with_stack(old(self)@.stack().drop_last()),
                Err(e) => e == LuaError::IndexError && old(self)@.stack().len() == 0 && final(self)@
                    == old(self)@,
            },
    {
        let n = self.frames.len() - 1;
        let r = self.frames[n].pop();
        assert(self@.tables =~= old(self)@.tables);
        match r {
            Ok(v) => {
                assert(self@.frames =~= old(self)@.with_stack(
                    old(self)@.stack().drop_last(),
                ).frames);
                Ok(v)
            },
            Err(e) => {
                assert(self@.frames =~= old(self)@.frames);
                Err(e)
            },
        }
    }

    /// Puts the value under `k` in the table `t` in the place of the top
    /// `drop` values of the stack, and returns its type.
    fn get_table_impl(
        &mut self,
        t: &LuaValue,
        k: &LuaValue,
        drop: usize,
    ) -> (r: Result<i8, LuaError>)
        requires
            old(self).wf(),
        ensures
            final(self).wf(),
            agrees_with(r, old(self)@, final(self)@, old(self)@.fetched(t@, k@, drop as int)),
    {
        if self.stack().vec.len() < drop {
            return Err(LuaError::IndexError);
        }
        match self.table_get(t, k) {
            Some(v) => {
                let type_id = v.type_id();
                let r = self.pop(drop);
                assert(r.is_ok());
                self.push_val(v);
                proof {
                    let rest = old(self)@.stack().subrange(0, old(self)@.stack().len() - drop);
                    lemma_with_stack(old(self)@, rest, rest.push(v@));
                }
                Ok(type_id)
            },
            None => Err(LuaError::TableError),
        }
    }

    /// Puts `v` under `k` in the table `t` and takes the top `drop` values
    /// off the stack.
    fn set_table_impl(&mut self, t: &LuaValue, k: LuaValue, v: LuaValue, drop: usize) -> (r: Result<
        (),
        LuaError,
    >)
        requires
            old(self).wf(),
        ensures
            final(self).wf(),
            agrees(r, old(self)@, final(self)@, old(self)@.stored(t@, k@, v@, drop as int)),
    {
        if self.stack().vec.len() < drop {
            return Err(LuaError::IndexError);
        }
        if self.table_put(t, k, v) {
            let r = self.pop(drop);
            assert(r.is_ok());
            Ok(())
        } else {
            Err(LuaError::TableError)
        }
    }

    /// Begins a call whose results are to go to the registers of the caller
    /// from `dest` on; see `call`.
    pub fn begin_call(&mut self, nargs: usize, nresults: isize, dest: isize) -> (r: Result<
        Step,
        LuaError,
    >)
        requires
            old(self).wf(),
        ensures
            final(self).wf(),
            match old(self)@.called(nargs as int, nresults as int, dest as int) {
                Ok((step, s)) => r.is_ok() && r.unwrap()@ == step && final(self)@ == s,
                Err(e) => r.is_err() && r.unwrap_err() == e && final(self)@ == old(self)@,
            },
    {
        let last = self.frames.len() - 1;
        let n = self.frames[last].vec.len();
        if n <= nargs {
            return Err(LuaError::IndexError);
        }
        let c: Rc<Closure> = match &self.frames[last].vec[n - nargs - 1] {
            LuaValue::Function(h) => {
                if *h < self.closures.len() {
                    Rc::clone(&self.closures[*h])
                } else {
                    return Err(LuaError::TypeError);
                }
            },
            _ => {
                return Err(LuaError::TypeError);
            },
        };
        let ghost stack = old(self)@.stack();
        let args = match self.frames[last].pop_n(nargs) {
            Ok(a) => a,
            Err(e) => {
                return Err(e);
            },
        };
        let popped = self.frames[last].pop();
        assert(popped.is_ok());
        assert(self.frames[last as int]@.stack =~= stack.subrange(0, n - nargs - 1));
        assert(self@.tables =~= old(self)@.tables);
        assert(self@.frames =~= old(self)@.with_stack(stack.subrange(0, n - nargs - 1)).frames);
        Ok(self.enter(c, args, nresults, dest))
    }

}

impl LuaAPI for LuaState {
    open spec fn state(&self) -> StateView {
        self@
    }

    open spec fn valid(&self) -> bool {
        self.wf()
    }

    proof fn lemma_valid(&self) {
    }

    fn get_top(&self) -> (r: isize) {
        self.stack().top()
    }

    fn abs_index(&self, idx: isize) -> (r: isize) {
        self.stack().abs_index(idx)
    }

    fn check_stack(&mut self, n: usize) -> (r: bool) {
        let last = self.frames.len() - 1;
        let r = self.frames[last].check(n);
        assert(self@.frames =~= old(self)@.frames);
        assert(self@.tables =~= old(self)@.tables);
        r
    }

    fn pop(&mut self, n: usize) -> (r: Result<(), LuaError>) {
        let last = self.frames.len() - 1;
        let r = self.frames[last].pop_n(n);
        assert(self@.tables =~= old(self)@.tables);
        match r {
            Ok(_) => {
                assert(self@.frames =~= old(self)@.popped(n as int).unwrap().frames);
                Ok(())
            },
            Err(e) => {
                assert(self@.frames =~= old(self)@.frames);
                Err(e)
            },
        }
    }

    fn copy(&mut self, from_idx: isize, to_idx: isize) -> (r: Result<(), LuaError>) {
        let val = self.get_val(from_idx);
        self.set_val(to_idx, val)
    }

    fn push_value(&mut self, idx: isize) {
        let val = self.get_val(idx);
        self.push_val(val);
    }

    fn replace(&mut self, idx: isize) -> (r: Result<(), LuaError>) {
        let val = match self.pop_val() {
            Ok(v) => v,
            Err(e) => {
                return Err(e);
            },
        };
        if !self.stack().is_valid(idx) {
            // put it back: nothing is to change where the index is wrong
            self.push_val(val);
            assert(self@.stack() =~= old(self)@.stack());
            assert(self@.frames =~= old(self)@.frames);
            return Err(LuaError::IndexError);
        }
        let r = self.set_val(idx, val);
        assert(r.is_ok());
        proof {
            let rest = old(self)@.stack().drop_last();
            lemma_with_stack(old(self)@, rest, set_at(rest, idx as int, val@));
        }
        Ok(())
    }

    fn insert(&mut self, idx: isize) -> (r: Result<(), LuaError>) {
        self.rotate(idx, 1)
    }

    fn remove(&mut self, idx: isize) -> (r: Result<(), LuaError>) {
        match self.rotate(idx, -1) {
            Ok(_) => {
                let r = self.pop(1);
                assert(r.is_ok());
                Ok(())
            },
            Err(e) => Err(e),
        }
    }

    fn rotate(&mut self, idx: isize, n: isize) -> (r: Result<(), LuaError>) {
        let last = self.frames.len() - 1;
        let r = self.frames[last].rotate(idx, n);
        assert(self@.tables =~= old(self)@.tables);
        match r {
            Ok(_) => {
                assert(self@.frames =~= old(self)@.rotated(idx as int, n as int).unwrap().frames);
                Ok(())
            },
            Err(e) => {
                assert(self@.frames =~= old(self)@.frames);
                Err(e)
            },
        }
    }

    fn set_top(&mut self, idx: isize) -> (r: Result<(), LuaError>) {
        let last = self.frames.len() - 1;
        let r = self.frames[last].set_top(idx);
        assert(self@.tables =~= old(self)@.tables);
        match r {
            Ok(_) => {
                assert(self@.frames =~= old(self)@.with_top(idx as int).unwrap().frames);
                Ok(())
            },
            Err(e) => {
                assert(self@.frames =~= old(self)@.frames);
                Err(e)
            },
        }
    }

    fn name_of_type(&self, tp: i8) -> (r: &'static str) {
        match tp {
            -1 => "no value",
            0 => "nil",
            1 => "boolean",
            2 => "userdata",
            3 => "number",
            4 => "string",
            5 => "table",
            6 => "function",
            7 => "userdata",
            8 => "thread",
            9 => "number of types",
            10 => "proto",
            11 => "dead key",
            _ => "total types",
        }
    }

    fn type_id(&self, idx: isize) -> (r: i8) {
        if self.stack().is_valid(idx) {
            self.stack().get(idx).type_id()
        } else {
            LUA_TNONE
        }
    }

    fn is_none(&self, idx: isize) -> (r: bool) {
        self.type_id(idx) == LUA_TNONE
    }

    fn is_nil(&self, idx: isize) -> (r: bool) {
        self.type_id(idx) == LUA_TNIL
    }

    fn is_none_or_nil(&self, idx: isize) -> (r: bool) {
        self.is_none(idx) || self.is_nil(idx)
    }

    fn is_boolean(&self, idx: isize) -> (r: bool) {
        self.type_id(idx) == LUA_TBOOLEAN
    }

    fn is_integer(&self, idx: isize) -> (r: bool) {
        match self.get_val(idx) {
            LuaValue::Integer(_) => true,
            _ => false,
        }
    }

    fn is_number(&self, idx: isize) -> (r: bool) {
        self.to_numberx(idx).is_some()
    }

    fn is_string(&self, idx: isize) -> (r: bool) {
        let t = self.type_id(idx);
        t == LUA_TSTRING || t == LUA_TNUMBER
    }

    fn is_table(&self, idx: isize) -> (r: bool) {
        self.type_id(idx) == LUA_TTABLE
    }

    fn is_thread(&self, idx: isize) -> (r: bool) {
        self.type_id(idx) == LUA_TTHREAD
    }

    fn is_function(&self, idx: isize) -> (r: bool) {
        self.type_id(idx) == LUA_TFUNCTION
    }

    fn is_rust_function(&self, idx: isize) -> (r: bool) {
        self.to_rust_function(idx).is_some()
    }

    fn to_boolean(&self, idx: isize) -> (r: bool) {
        self.get_val(idx).to_boolean()
    }

    fn to_integer(&self, idx: isize) -> (r: Result<i64, LuaError>) {
        match self.to_integerx(idx) {
            Some(i) => Ok(i),
            None => Err(LuaError::TypeError),
        }
    }

    fn to_integerx(&self, idx: isize) -> (r: Option<i64>) {
        match self.get_val(idx) {
            LuaValue::Integer(n) => Some(n),
            _ => None,
        }
    }

    fn to_number(&self, idx: isize) -> (r: Result<u64, LuaError>) {
        match self.to_numberx(idx) {
            Some(x) => Ok(x),
            None => Err(LuaError::TypeError),
        }
    }

    fn to_numberx(&self, idx: isize) -> (r: Option<u64>) {
        match self.get_val(idx) {
            LuaValue::Number(n) => Some(n),
            LuaValue::Integer(n) => Some(int_to_float(n)),
            _ => None,
        }
    }

    fn to_string(&self, idx: isize, answer: Option<&FloatAnswer>) -> (r: Result<
        Outcome,
        LuaError,
    >) {
        match self.to_stringx(idx, answer) {
            Outcome::Fail => Err(LuaError::TypeError),
            o => Ok(o),
        }
    }

    fn to_stringx(&self, idx: isize, answer: Option<&FloatAnswer>) -> (r: Outcome) {
        let v = self.get_val(idx);
        to_text(&v, answer)
    }

    fn to_rust_function(&self, idx: isize) -> (r: Option<RustFn>) {
        match self.get_val(idx) {
            LuaValue::Function(h) => {
                if h < self.closures.len() {
                    self.closures[h].rust_fn
                } else {
                    None
                }
            },
            _ => None,
        }
    }

    fn push_nil(&mut self) {
        self.push_val(LuaValue::Nil);
    }

    fn push_boolean(&mut self, b: bool) {
        self.push_val(LuaValue::Boolean(b));
    }

    fn push_integer(&mut self, n: i64) {
        self.push_val(LuaValue::Integer(n));
    }

    fn push_number(&mut self, n: u64) {
        self.push_val(LuaValue::Number(n));
    }

    fn push_string(&mut self, s: String) {
        self.push_val(LuaValue::Str(s));
    }

    fn push_rust_function(&mut self, f: RustFn) {
        let h = self.closures.len();
        let c = Rc::new(Closure::new_rust_closure(f));
        self.closures.push(c);
        assert(self@.frames =~= old(self)@.frames);
        assert(self@.tables =~= old(self)@.tables);
        assert(self@ == old(self)@.add_closure(c));
        self.push_val(LuaValue::Function(h));
    }

    fn push_global_table(&mut self) {
        let global = self.globals();
        self.push_val(global);
    }

    fn arith(&mut self, op: u8, answer: Option<&FloatAnswer>) -> (r: Result<
        Option<FloatRequest>,
        LuaError,
    >) {
        let n = self.stack().vec.len();
        let unary = op == LUA_OPUNM || op == LUA_OPBNOT;
        if n < 1 || (!unary && n < 2) {
            return Err(LuaError::IndexError);
        }
        let outcome = if unary {
            let a = &self.stack().vec[n - 1];
            arith(a, a, op, answer)
        } else {
            let a = &self.stack().vec[n - 2];
            let b = &self.stack().vec[n - 1];
            arith(a, b, op, answer)
        };
        match outcome {
            Outcome::Value(v) => {
                let drop: usize = if unary {
                    1
                } else {
                    2
                };
                let r = self.pop(drop);
                assert(r.is_ok());
                self.push_val(v);
                proof {
                    let rest = old(self)@.stack().subrange(0, n - drop);
                    lemma_with_stack(old(self)@, rest, rest.push(v@));
                }
                Ok(None)
            },
            Outcome::Request(req) => Ok(Some(req)),
            Outcome::Fail => Err(LuaError::ArithError),
        }
    }

    fn compare(&mut self, idx1: isize, idx2: isize, op: u8) -> (r: Result<bool, LuaError>) {
        if !self.stack().is_valid(idx1) || !self.stack().is_valid(idx2) {
            return Ok(false);
        }
        let a = self.get_val(idx1);
        let b = self.get_val(idx2);
        match compare(&a, &b, op) {
            Some(result) => Ok(result),
            None => Err(LuaError::CompareError),
        }
    }

    fn len(&mut self, idx: isize) -> (r: Result<(), LuaError>) {
        let v = self.get_val(idx);
        match self.length_of(&v) {
            Some(n) => {
                self.push_val(LuaValue::Integer(n));
                Ok(())
            },
            None => Err(LuaError::TypeError),
        }
    }

    fn concat(&mut self, n: isize, answer: Option<&FloatAnswer>) -> (r: Result<
        Option<FloatRequest>,
        LuaError,
    >) {
        if n == 0 {
            self.push_val(LuaValue::Str(String::new()));
            return Ok(None);
        }
        if n < 2 {
            return Ok(None);
        }
        let count = n as usize;
        let last = self.frames.len() - 1;
        let len = self.frames[last].vec.len();
        if count > len {
            return Err(LuaError::IndexError);
        }
        let ghost rest = old(self)@.stack().subrange(0, len - count);
        let ghost given = old(self)@.stack().subrange(len - count, len as int);
        let mut ops = match self.frames[last].pop_n(count) {
            Ok(ops) => ops,
            Err(e) => {
                return Err(e);
            },
        };
        let outcome = concat_values(&mut ops, answer);
        let r = match outcome {
            Outcome::Value(v) => {
                self.frames[last].push(v);
                Ok(None)
            },
            Outcome::Request(req) => {
                self.frames[last].push_n(ops, -1);
                Ok(Some(req))
            },
            Outcome::Fail => {
                self.frames[last].push_n(ops, -1);
                assert(self.frames[last as int]@.stack =~= old(self)@.stack());
                Err(LuaError::TypeError)
            },
        };
        assert(self@.tables =~= old(self)@.tables);
        proof {
            match old(self)@.concat(n as int, view_answer(answer)) {
                Ok((req, s)) => {
                    assert(self@.frames =~= s.frames);
                },
                Err(e) => {
                    assert(self@.frames =~= old(self)@.frames);
                },
            }
        }
        r
    }

    fn new_table(&mut self) {
        self.create_table(0, 0);
    }

    fn create_table(&mut self, narr: usize, nrec: usize) {
        let t = self.new_lua_table(narr, nrec);
        self.push_val(t);
    }

    fn get_table(&mut self, idx: isize) -> (r: Result<i8, LuaError>) {
        let t = self.get_val(idx);
        let k = self.get_val(-1);
        self.get_table_impl(&t, &k, 1)
    }

    fn get_field(&mut self, idx: isize, k: &str) -> (r: Result<i8, LuaError>) {
        let t = self.get_val(idx);
        let k = LuaValue::Str(String::from_str(k));
        self.get_table_impl(&t, &k, 0)
    }

    fn get_i(&mut self, idx: isize, i: i64) -> (r: Result<i8, LuaError>) {
        let t = self.get_val(idx);
        let k = LuaValue::Integer(i);
        self.get_table_impl(&t, &k, 0)
    }

    fn get_global(&mut self, name: &str) -> (r: Result<i8, LuaError>) {
        let t = self.globals();
        let k = LuaValue::Str(String::from_str(name));
        self.get_table_impl(&t, &k, 0)
    }

    fn set_table(&mut self, idx: isize) -> (r: Result<(), LuaError>) {
        let t = self.get_val(idx);
        let v = self.get_val(-1);
        let k = self.get_val(-2);
        self.set_table_impl(&t, k, v, 2)
    }

    fn set_field(&mut self, idx: isize, k: &str) -> (r: Result<(), LuaError>) {
        let t = self.get_val(idx);
        let v = self.get_val(-1);
        let k = LuaValue::Str(String::from_str(k));
        self.set_table_impl(&t, k, v, 1)
    }

    fn set_i(&mut self, idx: isize, i: i64) -> (r: Result<(), LuaError>) {
        let t = self.get_val(idx);
        let v = self.get_val(-1);
        let k = LuaValue::Integer(i);
        self.set_table_impl(&t, k, v, 1)
    }

    fn set_global(&mut self, name: &str) -> (r: Result<(), LuaError>) {
        let t = self.globals();
        let v = self.get_val(-1);
        let k = LuaValue::Str(String::from_str(name));
        self.set_table_impl(&t, k, v, 1)
    }

    fn register(&mut self, name: &str, f: RustFn) -> (r: Result<(), LuaError>) {
        let t = self.globals();
        let is_table = match &t {
            LuaValue::Table(h) => *h < self.tables.len(),
            _ => false,
        };
        if !is_table {
            return Err(LuaError::TableError);
        }
        let h = self.closures.len();
        let c = Rc::new(Closure::new_rust_closure(f));
        self.closures.push(c);
        assert(self@.frames =~= old(self)@.frames);
        assert(self@.tables =~= old(self)@.tables);
        assert(self@ == old(self)@.add_closure(c));
        let k = LuaValue::Str(String::from_str(name));
        let put = self.table_put(&t, k, LuaValue::Function(h));
        assert(put);
        Ok(())
    }

    fn load(&mut self, chunk: Vec<u8>, chunk_name: &str, mode: &str) -> (r: Result<
        (),
        LuaError,
    >) {
        if !has_letter_b(mode) {
            return Err(LuaError::LoadError);
        }
        let proto = match undump(chunk) {
            Ok(p) => p,
            Err(_) => {
                return Err(LuaError::LoadError);
            },
        };
        let h = self.closures.len();
        let c = Rc::new(Closure::new(proto));
        self.closures.push(c);
        assert(self@.frames =~= old(self)@.frames);
        assert(self@.tables =~= old(self)@.tables);
        assert(self@ == old(self)@.add_closure(c));
        self.push_val(LuaValue::Function(h));
        Ok(())
    }

    fn call(&mut self, nargs: usize, nresults: isize) -> (r: Result<Step, LuaError>) {
        self.begin_call(nargs, nresults, 0)
    }
}

impl LuaVM for LuaState {
    fn pc(&self) -> (r: isize) {
        self.stack().pc
    }

    fn add_pc(&mut self, n: isize) -> (r: Result<(), LuaError>) {
        let last = self.frames.len() - 1;
        match self.frames[last].pc.checked_add(n) {
            Some(pc) => {
                self.frames[last].pc = pc;
                assert(self@.frames =~= old(self)@.with_pc(pc as int).frames);
                assert(self@.tables =~= old(self)@.tables);
                Ok(())
            },
            None => Err(LuaError::IndexError),
        }
    }

    fn set_pc(&mut self, pc: isize) {
        let last = self.frames.len() - 1;
        self.frames[last].pc = pc;
        assert(self@.frames =~= old(self)@.with_pc(pc as int).frames);
        assert(self@.tables =~= old(self)@.tables);
    }

    fn fetch(&mut self) -> (r: Result<u32, LuaError>) {
        let last = self.frames.len() - 1;
        let pc = self.frames[last].pc;
        if pc < 0 || pc == isize::MAX || pc as usize >= self.frames[last].closure.proto.code.len() {
            return Err(LuaError::CorruptChunk);
        }
        let i = self.frames[last].closure.proto.code[pc as usize];
        self.frames[last].pc = pc + 1;
        assert(self@.frames =~= old(self)@.with_pc(pc + 1).frames);
        assert(self@.tables =~= old(self)@.tables);
        Ok(i)
    }

    fn get_const(&mut self, idx: isize) -> (r: Result<(), LuaError>) {
        match self.konst(idx) {
            Some(v) => {
                self.push_val(v);
                Ok(())
            },
            None => Err(LuaError::CorruptChunk),
        }
    }

    fn get_rk(&mut self, rk: isize) -> (r: Result<(), LuaError>) {
        match self.rk(rk) {
            Some(v) => {
                self.push_val(v);
                Ok(())
            },
            None => Err(LuaError::CorruptChunk),
        }
    }

    fn load_proto(&mut self, idx: usize) -> (r: Result<(), LuaError>) {
        if idx >= self.proto_count() {
            return Err(LuaError::CorruptChunk);
        }
        let proto = self.proto_at(idx);
        let c = self.new_lua_closure(proto);
        self.push_val(c);
        Ok(())
    }

    fn load_vararg(&mut self, n: isize) {
        let last = self.frames.len() - 1;
        let mut copy: Vec<LuaValue> = Vec::new();
        let mut i: usize = 0;
        let count = self.frames[last].varargs.len();
        while i < count
            invariant
                i <= count,
                last == self.frames.len() - 1,
                count == self.frames[last as int].varargs.len(),
                *self == *old(self),
                vals(copy@) == old(self)@.frame().varargs.subrange(0, i as int),
            decreases count - i,
        {
            let ghost before = vals(copy@);
            let v = self.frames[last].varargs[i].duplicate();
            assert(v@ == old(self)@.frame().varargs[i as int]);
            copy.push(v);
            i += 1;
            assert(vals(copy@) =~= before.push(v@));
            assert(vals(copy@) =~= old(self)@.frame().varargs.subrange(0, i as int));
        }
        assert(vals(copy@) =~= old(self)@.frame().varargs);
        self.frames[last].push_n(copy, n);
        assert(self@.frames =~= old(self)@.with_varargs(n as int).frames);
        assert(self@.tables =~= old(self)@.tables);
    }

    fn register_count(&self) -> (r: usize) {
        self.stack().closure.proto.max_stack_size as usize
    }

    fn get_val(&self, idx: isize) -> (r: LuaValue) {
        self.stack().get(idx)
    }

    fn set_val(&mut self, idx: isize, v: LuaValue) -> (r: Result<(), LuaError>) {
        let n = self.frames.len() - 1;
        let r = self.frames[n].set(idx, v);
        assert(self@.tables =~= old(self)@.tables);
        match r {
            Ok(_) => {
                assert(self@.frames =~= old(self)@.with_stack(
                    set_at(old(self)@.stack(), idx as int, v@),
                ).frames);
                Ok(())
            },
            Err(e) => {
                assert(self@.frames =~= old(self)@.frames);
                Err(e)
            },
        }
    }

    fn is_valid(&self, idx: isize) -> (r: bool) {
        self.stack().is_valid(idx)
    }

    fn konst(&self, idx: isize) -> (r: Option<LuaValue>) {
        let frame = self.stack();
        if idx < 0 || idx as usize >= frame.closure.proto.constants.len() {
            return None;
        }
        Some(
            match &frame.closure.proto.constants[idx as usize] {
                Constant::Nil => LuaValue::Nil,
                Constant::Boolean(b) => LuaValue::Boolean(*b),
                Constant::Integer(i) => LuaValue::Integer(*i),
                Constant::Number(n) => LuaValue::Number(*n),
                Constant::Str(s) => LuaValue::Str(s.clone()),
            },
        )
    }

    fn rk(&self, n: isize) -> (r: Option<LuaValue>) {
        if n > 0xff {
            self.konst(n % 0x100)
        } else {
            Some(self.get_val(n + 1))
        }
    }

    fn height(&self) -> (r: usize) {
        self.stack().vec.len()
    }

    fn depth(&self) -> (r: usize) {
        self.frames.len()
    }

    fn regs(&self, a: isize, b: isize) -> (r: Vec<LuaValue>) {
        let mut out: Vec<LuaValue> = Vec::new();
        let mut i = a;
        while i < b
            invariant
                a <= i <= b || (b < a && i == a),
                self.wf(),
                vals(out@) == self@.regs(a as int, i as int),
            decreases b - i,
        {
            let ghost before = vals(out@);
            let v = self.get_val(i);
            out.push(v);
            i += 1;
            assert(vals(out@) =~= before.push(v@));
            assert(vals(out@) =~= self@.regs(a as int, i as int));
        }
        assert(vals(out@) =~= self@.regs(a as int, b as int));
        out
    }

    fn set_regs(&mut self, a: isize, values: Vec<LuaValue>) -> (r: Result<(), LuaError>) {
        let last = self.frames.len() - 1;
        let room = self.frames[last].vec.len();
        let count = values.len();
        if a < 1 || count > room || (a - 1) as usize > room - count {
            return Err(LuaError::IndexError);
        }
        let at = (a - 1) as usize;
        let ghost given = vals(values@);
        let ghost frame = old(self)@.frame();
        let mut values = values;
        while values.len() > 0
            invariant
                values.len() <= count,
                at + count <= room,
                last == self.frames.len() - 1,
                given.len() == count,
                vals(values@) == given.subrange(0, values.len() as int),
                self.tables == old(self).tables,
                self.registry == old(self).registry,
                self.closures == old(self).closures,
                self.frames.len() == old(self).frames.len(),
                forall|i: int| 0 <= i < last ==> self.frames[i] == old(self).frames[i],
                self.frames[last as int]@ == frame.with_stack(self.frames[last as int]@.stack),
                self.frames[last as int].vec.len() == room,
                self.frames[last as int]@.stack.len() == room,
                forall|i: int|
                    0 <= i < room ==> #[trigger] self.frames[last as int]@.stack[i] == (if at
                        + values.len() <= i < at + count {
                        given[i - at]
                    } else {
                        frame.stack[i]
                    }),
            decreases values.len(),
        {
            let ghost before = self.frames[last as int]@.stack;
            let ghost held = vals(values@);
            let j = values.len() - 1;
            match values.pop() {
                Some(v) => {
                    assert(v@ == held[j as int]);
                    self.frames[last].vec[at + j] = v;
                    assert(self.frames[last as int]@.stack =~= before.update(at + j, v@));
                    assert(vals(values@) =~= given.subrange(0, values.len() as int));
                },
                None => {},
            }
        }
        assert(self.frames[last as int]@.stack =~= store_range(frame.stack, at as int, given));
        assert(self@.tables =~= old(self)@.tables);
        proof {
            assert(self@.frames =~= old(self)@.with_regs(a as int, given).unwrap().frames);
            assert forall|i: int| 0 <= i < self.tables.len() implies distinct_keys(
                (#[trigger] self.tables[i]).map@,
            ) by {
                assert(self.tables[i] == old(self).tables[i]);
            }
        }
        Ok(())
    }

    fn table_get(&self, t: &LuaValue, k: &LuaValue) -> (r: Option<LuaValue>) {
        match t {
            LuaValue::Table(h) => {
                if *h < self.tables.len() {
                    Some(self.tables[*h].get(k))
                } else {
                    None
                }
            },
            _ => None,
        }
    }

    fn table_put(&mut self, t: &LuaValue, k: LuaValue, v: LuaValue) -> (r: bool) {
        match t {
            LuaValue::Table(h) => {
                if *h < self.tables.len() {
                    assert(self@.tables[*h as int].wf());
                    let r = self.tables[*h].put(k, v);
                    assert(self@.frames =~= old(self)@.frames);
                    assert forall|i: int| 0 <= i < self.tables.len() implies (
                    #[trigger] self.tables[i]).wf() by {
                        if i != *h {
                            assert(self.tables[i] == old(self).tables[i]);
                            assert(old(self)@.tables[i].wf());
                        }
                    }
                    assert forall|i: int| 0 <= i < self@.tables.len() implies (
                    #[trigger] self@.tables[i]).wf() by {
                        assert(self.tables[i].wf());
                    }
                    match r {
                        Ok(_) => {
                            assert(self@.tables =~= old(self)@.tables.update(
                                *h as int,
                                old(self)@.tables[*h as int].put(k@, v@),
                            ));
                            true
                        },
                        Err(_) => {
                            assert(self@.tables =~= old(self)@.tables);
                            false
                        },
                    }
                } else {
                    false
                }
            },
            _ => false,
        }
    }

    fn table_count(&self) -> (r: usize) {
        self.tables.len()
    }

    fn length_of(&self, v: &LuaValue) -> (r: Option<i64>) {
        match v {
            LuaValue::Str(s) => Some(s.as_str().len() as i64),
            LuaValue::Table(h) => {
                if *h < self.tables.len() {
                    Some(self.tables[*h].len() as i64)
                } else {
                    None
                }
            },
            _ => None,
        }
    }

    fn globals(&self) -> (r: LuaValue) {
        self.tables[self.registry].get(&LuaValue::Integer(LUA_RIDX_GLOBALS as i64))
    }

    fn push_all(&mut self, values: Vec<LuaValue>) {
        let last = self.frames.len() - 1;
        self.frames[last].push_n(values, -1);
        assert(self@.frames =~= old(self)@.with_stack(old(self)@.stack() + vals(values@)).frames);
        assert(self@.tables =~= old(self)@.tables);
    }

    fn copy_varargs(&self, n: isize) -> (r: Vec<LuaValue>) {
        let frame = self.stack();
        let have = frame.varargs.len();
        let count: usize = if n < 0 {
            have
        } else {
            n as usize
        };
        let mut out: Vec<LuaValue> = Vec::new();
        let mut i: usize = 0;
        while i < count
            invariant
                i <= count,
                have == frame.varargs.len(),
                n < 0 ==> count == have,
                n >= 0 ==> count == n,
                frame@ == self@.frame(),
                fit(frame@.varargs, n as int).len() == count,
                vals(out@) == fit(frame@.varargs, n as int).subrange(0, i as int),
            decreases count - i,
        {
            let ghost before = vals(out@);
            let v = if i < have {
                frame.varargs[i].duplicate()
            } else {
                LuaValue::Nil
            };
            assert(v@ == fit(frame@.varargs, n as int)[i as int]);
            out.push(v);
            i += 1;
            assert(vals(out@) =~= before.push(v@));
            assert(vals(out@) =~= fit(frame@.varargs, n as int).subrange(0, i as int));
        }
        assert(vals(out@) =~= fit(frame@.varargs, n as int));
        out
    }

    fn closure_at(&self, v: &LuaValue) -> (r: Option<Rc<Closure>>) {
        match v {
            LuaValue::Function(h) => {
                if *h < self.closures.len() {
                    Some(Rc::clone(&self.closures[*h]))
                } else {
                    None
                }
            },
            _ => None,
        }
    }

    fn proto_count(&self) -> (r: usize) {
        self.stack().closure.proto.protos.len()
    }

    fn enter(&mut self, c: Rc<Closure>, args: Vec<LuaValue>, nresults: isize, dest: isize) -> (r:
        Step) {
        let mut args = args;
        let ghost given = vals(args@);
        let nargs = args.len();
        let (step, frame) = match c.rust_fn {
            Some(f) => {
                let mut frame = LuaStack::new(
                    if nargs <= LUAI_MAXSTACK {
                        nargs + LUA_MINSTACK
                    } else {
                        LUA_MINSTACK
                    },
                    c,
                );
                frame.push_n(args, -1);
                frame.nresults = nresults;
                frame.dest = dest;
                assert(frame@.stack =~= given);
                (Step::Host(f), frame)
            },
            None => {
                let nregs = c.proto.max_stack_size as usize;
                let nparams = c.proto.num_params as usize;
                let is_vararg = c.proto.is_vararg == 1;
                let mut frame = LuaStack::new(nregs + LUA_MINSTACK, c);
                if nargs > nparams {
                    let extra = args.split_off(nparams);
                    if is_vararg {
                        frame.varargs = extra;
                        assert(frame@.varargs =~= given.subrange(nparams as int, nargs as int));
                    }
                    assert(vals(args@) =~= given.subrange(0, nparams as int));
                }
                assert(fit(vals(args@), nparams as int) =~= fit(given, nparams as int));
                frame.push_n(args, nparams as isize);
                let r = frame.set_top(nregs as isize);
                assert(r.is_ok());
                assert(frame@.stack =~= resized(fit(given, nparams as int), nregs as int));
                frame.nresults = nresults;
                frame.dest = dest;
                (Step::Continue, frame)
            },
        };
        self.frames.push(frame);
        assert(self@.tables =~= old(self)@.tables);
        proof {
            let expected = old(self)@.entered(c, given, nresults as int, dest as int);
            assert(self@.frames =~= expected.1.frames);
        }
        step
    }

    fn return_from(&mut self, nret: usize) -> (r: Result<(), LuaError>) {
        let k = self.frames.len();
        if k < 2 {
            return Err(LuaError::IndexError);
        }
        let len = self.frames[k - 1].vec.len();
        if nret > len {
            return Err(LuaError::IndexError);
        }
        let nresults = self.frames[k - 1].nresults;
        let dest = self.frames[k - 1].dest;
        let room = self.frames[k - 2].vec.len();
        if dest > 0 && nresults >= 0 && (nresults as usize > room || (dest - 1) as usize > room
            - nresults as usize) {
            return Err(LuaError::IndexError);
        }
        let ghost caller = old(self)@.frames[k - 2];
        let ghost callee = old(self)@.frames[k - 1];
        let ghost results = callee.stack.subrange(len - nret, len as int);
        let ghost given = fit(results, nresults as int);
        let mut frame = match self.frames.pop() {
            Some(f) => f,
            None => {
                return Err(LuaError::IndexError);
            },
        };
        let values = match frame.pop_n(nret) {
            Ok(v) => v,
            Err(e) => {
                return Err(e);
            },
        };
        assert(vals(values@) == results);
        let last = k - 2;
        assert(self.frames[last as int]@ == caller);
        if dest <= 0 {
            self.frames[last].push_n(values, nresults);
        } else if nresults < 0 {
            self.frames[last].push_n(values, nresults);
            self.frames[last].push(LuaValue::Integer(dest as i64));
        } else {
            let at = (dest - 1) as usize;
            let count = nresults as usize;
            let mut values = values;
            if values.len() > count {
                values.truncate(count);
            }
            assert(vals(values@) =~= given.subrange(0, values.len() as int));
            // the nils that stand in for the results that are missing
            let mut j: usize = values.len();
            while j < count
                invariant
                    values.len() <= j <= count,
                    at + count <= room,
                    last == k - 2,
                    k == self.frames.len() + 1,
                    given.len() == count,
                    vals(values@) == given.subrange(0, values.len() as int),
                    self.tables == old(self).tables,
                    self.registry == old(self).registry,
                    self.closures == old(self).closures,
                    forall|i: int| 0 <= i < last ==> self.frames[i] == old(self).frames[i],
                    self.frames[last as int]@ == caller.with_stack(self.frames[last as int]@.stack),
                    self.frames[last as int].vec.len() == room,
                    self.frames[last as int]@.stack.len() == room,
                    forall|i: int|
                        0 <= i < room ==> #[trigger] self.frames[last as int]@.stack[i] == (if at
                            + values.len() <= i < at + j {
                            Val::Nil
                        } else {
                            caller.stack[i]
                        }),
                decreases count - j,
            {
                let ghost before = self.frames[last as int]@.stack;
                self.frames[last].vec[at + j] = LuaValue::Nil;
                assert(self.frames[last as int]@.stack =~= before.update(at + j, Val::Nil));
                j += 1;
            }
            let ghost kept = values.len();
            while values.len() > 0
                invariant
                    values.len() <= kept <= count,
                    at + count <= room,
                    last == k - 2,
                    k == self.frames.len() + 1,
                    given.len() == count,
                    vals(values@) == given.subrange(0, values.len() as int),
                    self.tables == old(self).tables,
                    self.registry == old(self).registry,
                    self.closures == old(self).closures,
                    forall|i: int| 0 <= i < last ==> self.frames[i] == old(self).frames[i],
                    self.frames[last as int]@ == caller.with_stack(self.frames[last as int]@.stack),
                    self.frames[last as int].vec.len() == room,
                    self.frames[last as int]@.stack.len() == room,
                    forall|i: int|
                        0 <= i < room ==> #[trigger] self.frames[last as int]@.stack[i] == (if at
                            + values.len() <= i < at + count {
                            given[i - at]
                        } else {
                            caller.stack[i]
                        }),
                decreases values.len(),
            {
                let ghost before = self.frames[last as int]@.stack;
                let ghost held = vals(values@);
                let j = values.len() - 1;
                match values.pop() {
                    Some(v) => {
                        assert(v@ == held[j as int]);
                        self.frames[last].vec[at + j] = v;
                        assert(self.frames[last as int]@.stack =~= before.update(at + j, v@));
                        assert(vals(values@) =~= given.subrange(0, values.len() as int));
                    },
                    None => {},
                }
            }
            assert(self.frames[last as int]@.stack =~= store_range(caller.stack, at as int, given));
        }
        assert(self@.tables =~= old(self)@.tables);
        proof {
            let expected = old(self)@.returned(nret as int);
            assert(expected.is_ok());
            assert(self@.frames =~= expected.unwrap().frames);
            assert forall|i: int| 0 <= i < self.tables.len() implies distinct_keys(
                (#[trigger] self.tables[i]).map@,
            ) by {
                assert(self.tables[i] == old(self).tables[i]);
            }
        }
        Ok(())
    }

    fn results_fit(&self) -> (r: bool) {
        let k = self.frames.len();
        if k < 2 {
            return true;
        }
        let nresults = self.frames[k - 1].nresults;
        let dest = self.frames[k - 1].dest;
        let room = self.frames[k - 2].vec.len();
        assert(self@.frames[k - 1] == self.frames[k - 1]@);
        assert(self@.frames[k - 2] == self.frames[k - 2]@);
        !(dest > 0 && nresults >= 0 && (nresults as usize > room || (dest - 1) as usize > room
            - nresults as usize))
    }

    fn proto_at(&self, idx: usize) -> (r: Rc<Prototype>) {
        Rc::clone(&self.stack().closure.proto.protos[idx])
    }

    fn new_lua_table(&mut self, narr: usize, nrec: usize) -> (r: LuaValue) {
        let h = self.tables.len();
        let t = LuaTable::new(narr, nrec);
        self.tables.push(t);
        assert(self@.frames =~= old(self)@.frames);
        assert(self@.tables =~= old(self)@.tables.push(TableView::empty()));
        LuaValue::Table(h)
    }

    fn new_lua_closure(&mut self, proto: Rc<Prototype>) -> (r: LuaValue) {
        let h = self.closures.len();
        let c = Rc::new(Closure::new(proto));
        proof {
            lemma_script_closure(c, proto);
        }
        self.closures.push(c);
        assert(self@.frames =~= old(self)@.frames);
        assert(self@.tables =~= old(self)@.tables);
        LuaValue::Function(h)
    }

    fn cut_to(&mut self, height: usize) {
        let last = self.frames.len() - 1;
        self.frames[last].vec.truncate(height);
        assert(self.frames[last as int]@.stack =~= old(self)@.stack().subrange(0, height as int));
        assert(self@.frames =~= old(self)@.with_stack(
            old(self)@.stack().subrange(0, height as int),
        ).frames);
        assert(self@.tables =~= old(self)@.tables);
    }
}

} // verus!
