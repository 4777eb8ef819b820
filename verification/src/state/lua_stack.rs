//! The stack of one call: registers below, temporaries above.
use vstd::prelude::*;
use std::rc::Rc;
use crate::api::consts::LUAI_MAXSTACK;
use crate::error::LuaError;
use crate::state::closure::Closure;
use crate::state::lua_value::{vals, LuaValue, Val};

verus! {

/// The frame of one call.
#[derive(Debug)]
pub struct LuaStack {
    /// The registers and, above them, the temporaries.
    pub vec: Vec<LuaValue>,
    /// The function that the frame runs.
    pub closure: Rc<Closure>,
    /// The arguments beyond the declared parameters.
    pub varargs: Vec<LuaValue>,
    /// The index of the next instruction.
    pub pc: isize,
    /// How many results the caller expects; below zero, all of them.
    pub nresults: isize,
    /// The register of the caller from which the results go, counted from
    /// one; zero where they stay on top of the caller's stack.
    pub dest: isize,
}

/// A frame, as a mathematical value.
pub struct FrameView {
    pub stack: Seq<Val>,
    pub closure: Rc<Closure>,
    pub varargs: Seq<Val>,
    pub pc: int,
    pub nresults: int,
    pub dest: int,
}

impl View for LuaStack {
    type V = FrameView;

    open spec fn view(&self) -> FrameView {
        FrameView {
            stack: vals(self.vec@),
            closure: self.closure,
            varargs: vals(self.varargs@),
            pc: self.pc as int,
            nresults: self.nresults as int,
            dest: self.dest as int,
        }
    }
}

/// The index of the top of a stack: the number of its values, as far as an
/// index can tell.
pub open spec fn top_of(s: Seq<Val>) -> int {
    if s.len() > isize::MAX {
        isize::MAX as int
    } else {
        s.len() as int
    }
}

/// The index counted from the bottom, one being the first value, for an
/// index that may count from the top, minus one being the last value.
pub open spec fn abs_of(s: Seq<Val>, idx: int) -> int {
    if idx >= 0 {
        idx
    } else {
        idx + top_of(s) + 1
    }
}

/// Does the index name a value of the stack?
pub open spec fn valid_at(s: Seq<Val>, idx: int) -> bool {
    0 < abs_of(s, idx) <= top_of(s)
}

/// The value at an index; nil where the index names none.
pub open spec fn get_at(s: Seq<Val>, idx: int) -> Val {
    if valid_at(s, idx) {
        s[abs_of(s, idx) - 1]
    } else {
        Val::Nil
    }
}

/// The stack with another value at a valid index.
pub open spec fn set_at(s: Seq<Val>, idx: int, v: Val) -> Seq<Val> {
    s.update(abs_of(s, idx) - 1, v)
}

/// `n` nils.
pub open spec fn nils(n: int) -> Seq<Val> {
    Seq::new(n as nat, |i: int| Val::Nil)
}

/// The first `n` of the values, with nils behind them where they are fewer;
/// all of them where `n` is below zero.
pub open spec fn fit(v: Seq<Val>, n: int) -> Seq<Val> {
    if n < 0 {
        v
    } else if n <= v.len() {
        v.subrange(0, n)
    } else {
        v + nils(n - v.len())
    }
}

/// The stack cut or filled with nils to the height `n`.
pub open spec fn resized(s: Seq<Val>, n: int) -> Seq<Val> {
    if n <= s.len() {
        s.subrange(0, n)
    } else {
        s + nils(n - s.len())
    }
}

/// The stack with the values at the positions `from` to `to` in the
/// opposite order; positions count from zero.
pub open spec fn reversed(s: Seq<Val>, from: int, to: int) -> Seq<Val> {
    Seq::new(
        s.len(),
        |j: int|
            if from <= j <= to {
                s[from + to - j]
            } else {
                s[j]
            },
    )
}

/// The stack with the values from position `p` on, counted from zero, moved
/// `n` places towards the top and those that leave at the top brought back
/// in at `p`; the other way where `n` is below zero.
pub open spec fn rotated(s: Seq<Val>, p: int, n: int) -> Seq<Val> {
    let k = s.len() - p;
    if n >= 0 {
        s.subrange(0, p) + s.subrange(s.len() - n, s.len() as int) + s.subrange(p, s.len() - n)
    } else {
        s.subrange(0, p) + s.subrange(p - n, s.len() as int) + s.subrange(p, p - n)
    }
}

/// Can the values from position `p` on be moved `n` places?
pub open spec fn can_rotate(s: Seq<Val>, p: int, n: int) -> bool {
    0 <= p < s.len() && -(s.len() - p) <= n <= s.len() - p
}

/// Moving the values `n` places and then `n` places back leaves every
/// value where it was.
pub proof fn lemma_rotate_back(s: Seq<Val>, p: int, n: int)
    requires
        can_rotate(s, p, n),
    ensures
        can_rotate(rotated(s, p, n), p, -n),
        rotated(rotated(s, p, n), p, -n) == s,
{
    assert(rotated(rotated(s, p, n), p, -n) =~= s);
}

/// Three reversals make a rotation: that of the part that stays in front,
/// that of the part that wraps round, and that of the whole.
pub proof fn lemma_three_reversals(s: Seq<Val>, p: int, n: int)
    requires
        can_rotate(s, p, n),
    ensures
        ({
            let t = s.len() - 1;
            let m = if n >= 0 {
                t - n
            } else {
                p - n - 1
            };
            reversed(reversed(reversed(s, p, m), m + 1, t), p, t) == rotated(s, p, n)
        }),
{
    let t = s.len() - 1;
    let m = if n >= 0 {
        t - n
    } else {
        p - n - 1
    };
    assert(reversed(reversed(reversed(s, p, m), m + 1, t), p, t) =~= rotated(s, p, n));
}

impl FrameView {
    /// An empty frame for the function `c`.
    pub open spec fn empty(c: Rc<Closure>) -> FrameView {
        FrameView {
            stack: Seq::empty(),
            closure: c,
            varargs: Seq::empty(),
            pc: 0,
            nresults: 0,
            dest: 0,
        }
    }

    /// The frame with another stack.
    pub open spec fn with_stack(self, stack: Seq<Val>) -> FrameView {
        FrameView { stack, ..self }
    }

    /// The frame with another program counter.
    pub open spec fn with_pc(self, pc: int) -> FrameView {
        FrameView { pc, ..self }
    }
}

/// The most slots that a new frame reserves when it is made.
pub const MAX_RESERVE: usize = 1024;

impl LuaStack {
    /// An empty frame for `closure` with room for `size` values.
    pub fn new(size: usize, closure: Rc<Closure>) -> (r: Self)
        ensures
            r@ == FrameView::empty(closure),
    {
        let size = if size > MAX_RESERVE {
            MAX_RESERVE
        } else {
            size
        };
        let r = LuaStack {
            vec: Vec::with_capacity(size),
            closure,
            varargs: Vec::new(),
            pc: 0,
            nresults: 0,
            dest: 0,
        };
        assert(r@.stack =~= Seq::<Val>::empty());
        assert(r@.varargs =~= Seq::<Val>::empty());
        r
    }

    /// The index of the top of the stack.
    pub fn top(&self) -> (r: isize)
        ensures
            r == top_of(self@.stack),
            r >= 0,
    {
        if self.vec.len() > isize::MAX as usize {
            isize::MAX
        } else {
            self.vec.len() as isize
        }
    }

    /// Makes room for `n` more values, if the stack may grow so far.
    pub fn check(&mut self, n: usize) -> (r: bool)
        ensures
            final(self)@ == old(self)@,
            r == (old(self)@.stack.len() + n <= LUAI_MAXSTACK),
    {
        if self.vec.len() <= LUAI_MAXSTACK && n <= LUAI_MAXSTACK - self.vec.len() {
            self.vec.reserve(n);
            true
        } else {
            false
        }
    }

    /// Puts a value on top.
    pub fn push(&mut self, val: LuaValue)
        ensures
            final(self)@ == old(self)@.with_stack(old(self)@.stack.push(val@)),
    {
        self.vec.push(val);
        assert(self@.stack =~= old(self)@.stack.push(val@));
    }

    /// Puts the first `n` of the values on top, and nils for those that are
    /// missing; all of them where `n` is below zero.
    pub fn push_n(&mut self, values: Vec<LuaValue>, n: isize)
        ensures
            final(self)@ == old(self)@.with_stack(old(self)@.stack + fit(vals(values@), n as int)),
    {
        let mut values = values;
        let ghost given = vals(values@);
        let count: usize = if n < 0 {
            values.len()
        } else {
            n as usize
        };
        if count < values.len() {
            values.truncate(count);
        }
        assert(vals(values@) =~= fit(given, n as int).subrange(0, values.len() as int));
        let have = values.len();
        self.vec.append(&mut values);
        assert(self@.stack =~= old(self)@.stack + fit(given, n as int).subrange(0, have as int));
        let mut i: usize = have;
        while i < count
            invariant
                have <= i <= count || (count < have && i == have),
                have <= count ==> fit(given, n as int).len() == count,
                self.closure == old(self).closure,
                self.varargs == old(self).varargs,
                self.pc == old(self).pc,
                self.nresults == old(self).nresults,
                self.dest == old(self).dest,
                have <= given.len(),
                count > have ==> have == given.len(),
                n < 0 ==> count == given.len(),
                n >= 0 ==> count == n,
                self@.stack == old(self)@.stack + fit(given, n as int).subrange(0, i as int),
            decreases count - i,
        {
            let ghost before = self@.stack;
            self.vec.push(LuaValue::Nil);
            i += 1;
            assert(self@.stack =~= before.push(Val::Nil));
            assert(fit(given, n as int) =~= given + nils(n - given.len()));
            assert(fit(given, n as int)[i - 1] == Val::Nil);
            assert(self@.stack =~= old(self)@.stack + fit(given, n as int).subrange(0, i as int));
        }
        assert(fit(given, n as int).subrange(0, fit(given, n as int).len() as int) =~= fit(
            given,
            n as int,
        ));
    }

    /// Takes the top value off.
    pub fn pop(&mut self) -> (r: Result<LuaValue, LuaError>)
        ensures
            match r {
                Ok(v) => old(self)@.stack.len() > 0 && v@ == old(self)@.stack.last() && final(self)@
                    == old(self)@.with_stack(old(self)@.stack.drop_last()),
                Err(e) => e == LuaError::IndexError && old(self)@.stack.len() == 0 && final(self)@
                    == old(self)@,
            },
    {
        match self.vec.pop() {
            Some(v) => {
                assert(self@.stack =~= old(self)@.stack.drop_last());
                Ok(v)
            },
            None => Err(LuaError::IndexError),
        }
    }

    /// Takes the top `n` values off, and gives them in the order in which
    /// they lay.
    pub fn pop_n(&mut self, n: usize) -> (r: Result<Vec<LuaValue>, LuaError>)
        ensures
            match r {
                Ok(v) => n <= old(self)@.stack.len() && vals(v@) == old(self)@.stack.subrange(
                    old(self)@.stack.len() - n,
                    old(self)@.stack.len() as int,
                ) && final(self)@ == old(self)@.with_stack(
                    old(self)@.stack.subrange(0, old(self)@.stack.len() - n),
                ),
                Err(e) => e == LuaError::IndexError && n > old(self)@.stack.len() && final(self)@
                    == old(self)@,
            },
    {
        let len = self.vec.len();
        if n > len {
            return Err(LuaError::IndexError);
        }
        let tail = self.vec.split_off(len - n);
        assert(vals(tail@) =~= old(self)@.stack.subrange(len - n, len as int));
        assert(self@.stack =~= old(self)@.stack.subrange(0, len - n));
        Ok(tail)
    }

    /// The index counted from the bottom.
    pub fn abs_index(&self, idx: isize) -> (r: isize)
        ensures
            r == abs_of(self@.stack, idx as int),
    {
        if idx >= 0 {
            idx
        } else {
            idx + self.top() + 1
        }
    }

    /// Does the index name a value of the stack?
    pub fn is_valid(&self, idx: isize) -> (r: bool)
        ensures
            r == valid_at(self@.stack, idx as int),
    {
        let abs_idx = self.abs_index(idx);
        abs_idx > 0 && abs_idx <= self.top()
    }

    /// The value at an index; nil where the index names none.
    pub fn get(&self, idx: isize) -> (r: LuaValue)
        ensures
            r@ == get_at(self@.stack, idx as int),
    {
        let abs_idx = self.abs_index(idx);
        if abs_idx > 0 && abs_idx <= self.top() {
            self.vec[(abs_idx - 1) as usize].duplicate()
        } else {
            LuaValue::Nil
        }
    }

    /// Puts a value at an index, which must name a value of the stack.
    pub fn set(&mut self, idx: isize, val: LuaValue) -> (r: Result<(), LuaError>)
        ensures
            match r {
                Ok(_) => valid_at(old(self)@.stack, idx as int) && final(self)@ == old(
                    self,
                )@.with_stack(set_at(old(self)@.stack, idx as int, val@)),
                Err(e) => e == LuaError::IndexError && !valid_at(old(self)@.stack, idx as int)
                    && final(self)@ == old(self)@,
            },
    {
        let abs_idx = self.abs_index(idx);
        if abs_idx > 0 && abs_idx <= self.top() {
            self.vec[(abs_idx - 1) as usize] = val;
            assert(self@.stack =~= set_at(old(self)@.stack, idx as int, val@));
            Ok(())
        } else {
            Err(LuaError::IndexError)
        }
    }

    /// Sets the height of the stack: values above the index are taken off,
    /// and nils fill what is missing below it.
    pub fn set_top(&mut self, idx: isize) -> (r: Result<(), LuaError>)
        ensures
            match r {
                Ok(_) => abs_of(old(self)@.stack, idx as int) >= 0 && final(self)@ == old(
                    self,
                )@.with_stack(resized(old(self)@.stack, abs_of(old(self)@.stack, idx as int))),
                Err(e) => e == LuaError::IndexError && abs_of(old(self)@.stack, idx as int) < 0
                    && final(self)@ == old(self)@,
            },
    {
        let new_top = self.abs_index(idx);
        if new_top < 0 {
            return Err(LuaError::IndexError);
        }
        let target = new_top as usize;
        if target <= self.vec.len() {
            self.vec.truncate(target);
            assert(self@.stack =~= resized(old(self)@.stack, new_top as int));
        } else {
            while self.vec.len() < target
                invariant
                    self.closure == old(self).closure,
                    self.varargs == old(self).varargs,
                    self.pc == old(self).pc,
                    self.nresults == old(self).nresults,
                    self.dest == old(self).dest,
                    old(self).vec.len() <= self.vec.len() <= target,
                    self@.stack == old(self)@.stack + nils(self.vec.len() - old(self).vec.len()),
                decreases target - self.vec.len(),
            {
                let ghost before = self@.stack;
                self.vec.push(LuaValue::Nil);
                assert(self@.stack =~= before.push(Val::Nil));
                assert(self@.stack =~= old(self)@.stack + nils(
                    self.vec.len() - old(self).vec.len(),
                ));
            }
        }
        Ok(())
    }

    /// Exchanges the values at two positions, counted from zero.
    fn swap(&mut self, i: usize, j: usize)
        requires
            i < old(self).vec.len(),
            j < old(self).vec.len(),
        ensures
            final(self)@ == old(self)@.with_stack(
                old(self)@.stack.update(i as int, old(self)@.stack[j as int]).update(
                    j as int,
                    old(self)@.stack[i as int],
                ),
            ),
    {
        if i != j {
            let mut tmp = LuaValue::Nil;
            core::mem::swap(&mut tmp, &mut self.vec[i]);
            core::mem::swap(&mut tmp, &mut self.vec[j]);
            core::mem::swap(&mut tmp, &mut self.vec[i]);
        }
        assert(self@.stack =~= old(self)@.stack.update(i as int, old(self)@.stack[j as int]).update(
            j as int,
            old(self)@.stack[i as int],
        ));
    }

    /// Puts the values at the positions `from` to `to`, counted from zero,
    /// in the opposite order. Nothing happens where `from` is not below `to`.
    pub fn reverse(&mut self, from: usize, to: usize) -> (r: Result<(), LuaError>)
        ensures
            match r {
                Ok(_) => (from < to ==> to < old(self)@.stack.len()) && final(self)@ == old(
                    self,
                )@.with_stack(
                    if from < to {
                        reversed(old(self)@.stack, from as int, to as int)
                    } else {
                        old(self)@.stack
                    },
                ),
                Err(e) => e == LuaError::IndexError && from < to && to >= old(self)@.stack.len()
                    && final(self)@ == old(self)@,
            },
    {
        if from >= to {
            assert(self@.stack =~= old(self)@.stack);
            return Ok(());
        }
        if to >= self.vec.len() {
            return Err(LuaError::IndexError);
        }
        let mut a = from;
        let mut b = to;
        let ghost s = self@.stack;
        while a < b
            invariant
                from <= a,
                b <= to,
                to < s.len(),
                a + b == from + to,
                a <= b + 1,
                s == old(self)@.stack,
                self@ == old(self)@.with_stack(self@.stack),
                self@.stack.len() == s.len(),
                self.vec.len() == s.len(),
                forall|j: int|
                    0 <= j < s.len() ==> #[trigger] self@.stack[j] == (if (from <= j < a) || (b < j
                        <= to) {
                        s[from + to - j]
                    } else {
                        s[j]
                    }),
            decreases b + 1 - a,
        {
            self.swap(a, b);
            a += 1;
            b -= 1;
        }
        assert(self@.stack =~= reversed(s, from as int, to as int));
        Ok(())
    }

    /// Moves the values from the index `idx` up to the top `n` places
    /// towards the top, those that leave at the top coming back in at
    /// `idx`; the other way where `n` is below zero. No more places than
    /// there are values from `idx` up.
    pub fn rotate(&mut self, idx: isize, n: isize) -> (r: Result<(), LuaError>)
        ensures
            match r {
                Ok(_) => valid_at(old(self)@.stack, idx as int) && can_rotate(
                    old(self)@.stack,
                    abs_of(old(self)@.stack, idx as int) - 1,
                    n as int,
                ) && final(self)@ == old(self)@.with_stack(
                    rotated(old(self)@.stack, abs_of(old(self)@.stack, idx as int) - 1, n as int),
                ),
                Err(e) => e == LuaError::IndexError && !(valid_at(old(self)@.stack, idx as int)
                    && can_rotate(
                    old(self)@.stack,
                    abs_of(old(self)@.stack, idx as int) - 1,
                    n as int,
                )) && final(self)@ == old(self)@,
            },
    {
        if !self.is_valid(idx) {
            return Err(LuaError::IndexError);
        }
        let abs_idx = self.abs_index(idx);
        let p: usize = (abs_idx - 1) as usize;
        let len = self.vec.len();
        let k: usize = len - p;
        let t: usize = len - 1;
        let ghost s = self@.stack;
        let shift: usize = if n >= 0 {
            n as usize
        } else if n == isize::MIN {
            isize::MAX as usize + 1
        } else {
            (-n) as usize
        };
        if shift > k {
            return Err(LuaError::IndexError);
        }
        if shift == 0 || shift == k {
            // every value comes back to its place
            assert(rotated(s, p as int, n as int) =~= s);
            return Ok(());
        }
        // the end of the part that stays in front
        let m: usize = if n >= 0 {
            t - shift
        } else {
            p + shift - 1
        };
        proof {
            lemma_three_reversals(s, p as int, n as int);
        }
        if p <= m {
            let r1 = self.reverse(p, m);
            assert(r1.is_ok());
        }
        assert(self@.stack =~= reversed(s, p as int, m as int));
        let ghost sa = self@.stack;
        if m < t {
            let r2 = self.reverse(m + 1, t);
            assert(r2.is_ok());
        }
        assert(self@.stack =~= reversed(sa, m + 1, t as int));
        let ghost sz = self@.stack;
        let r3 = self.reverse(p, t);
        assert(r3.is_ok());
        assert(self@.stack =~= reversed(sz, p as int, t as int));
        Ok(())
    }
}

} // verus!
