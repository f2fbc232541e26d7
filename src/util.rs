//! Fail-fast iteration over fallible items.
//!
//! [`Process`] hands out the values of a sequence of `Result`s until the
//! first error, which it keeps for the caller to read once the values have
//! run out. What was handed out before the error is not taken back.
use vstd::prelude::*;

verus! {

/// The values at the front of `s`, up to its first error.
pub open spec fn ok_prefix<T, E>(s: Seq<Result<T, E>>) -> Seq<T>
    decreases s.len(),
{
    if s.len() == 0 {
        Seq::empty()
    } else {
        match s[0] {
            Ok(v) => seq![v] + ok_prefix(s.drop_first()),
            Err(_) => Seq::empty(),
        }
    }
}

/// The first error of `s`, or `Ok(())` if it holds none.
pub open spec fn first_error<T, E>(s: Seq<Result<T, E>>) -> Result<(), E>
    decreases s.len(),
{
    if s.len() == 0 {
        Ok(())
    } else {
        match s[0] {
            Ok(_) => first_error(s.drop_first()),
            Err(e) => Err(e),
        }
    }
}

/// Each value of [`ok_prefix`] is the value of the item at its place.
pub proof fn lemma_ok_prefix_items<T, E>(s: Seq<Result<T, E>>)
    ensures
        ok_prefix(s).len() <= s.len(),
        forall|i: int| 0 <= i < ok_prefix(s).len() ==> s[i] == Ok::<T, E>(#[trigger] ok_prefix(s)[i]),
    decreases s.len(),
{
    if s.len() > 0 {
        lemma_ok_prefix_items(s.drop_first());
        if s[0] is Ok {
            assert forall|i: int| 0 <= i < ok_prefix(s).len() implies s[i] == Ok::<T, E>(
                #[trigger] ok_prefix(s)[i],
            ) by {
                if i > 0 {
                    assert(ok_prefix(s)[i] == ok_prefix(s.drop_first())[i - 1]);
                    assert(s[i] == s.drop_first()[i - 1]);
                }
            }
        }
    }
}

/// Hands out the values of fallible items while they succeed, and keeps
/// the first failure.
pub struct Process<T, E> {
    // The items not yet pulled, last first.
    items: Vec<Result<T, E>>,
    state: Result<(), E>,
}

impl<T, E> Process<T, E> {
    /// The items not yet pulled, in order.
    pub closed spec fn remaining(&self) -> Seq<Result<T, E>> {
        let n = self.items@.len();
        Seq::new(n, |i: int| self.items@[n - 1 - i])
    }

    /// `Ok(())`, or the first failure pulled.
    pub closed spec fn state(&self) -> Result<(), E> {
        self.state
    }

    /// Pulls the next value: `None` once a failure has been kept or the items
    /// have run out; a failure pulled now is kept and also gives `None`.
    pub fn next(&mut self) -> (r: Option<T>)
        ensures
            old(self).state() is Err || old(self).remaining().len() == 0 ==> {
                &&& r is None
                &&& final(self).state() == old(self).state()
                &&& final(self).remaining() == old(self).remaining()
            },
            old(self).state() is Ok && old(self).remaining().len() > 0 ==> {
                &&& final(self).remaining() == old(self).remaining().drop_first()
                &&& match old(self).remaining()[0] {
                    Ok(v) => r == Some(v) && final(self).state() is Ok,
                    Err(e) => r is None && final(self).state() == Err::<(), E>(e),
                }
            },
    {
        if self.state.is_err() {
            return None;
        }
        let ghost before = self.remaining();
        match self.items.pop() {
            Some(Ok(v)) => {
                assert(self.remaining() =~= before.drop_first());
                Some(v)
            },
            Some(Err(e)) => {
                self.state = Err(e);
                assert(self.remaining() =~= before.drop_first());
                None
            },
            None => None,
        }
    }

    /// Pulls every value into `dest` until the items run out or a failure is
    /// kept.
    pub fn drain_into(&mut self, dest: &mut Vec<T>)
        ensures
            old(self).state() is Ok ==> {
                &&& final(dest)@ == old(dest)@ + ok_prefix(old(self).remaining())
                &&& final(self).state() == first_error(old(self).remaining())
            },
            old(self).state() is Err ==> final(dest)@ == old(dest)@ && final(self).state()
                == old(self).state(),
    {
        let ghost src = self.remaining();
        let ghost start = dest@;
        let ghost st = self.state();
        let mut done = false;
        while !done
            invariant
                st is Ok ==> {
                    &&& start + ok_prefix(src) == dest@ + (if self.state() is Ok {
                        ok_prefix(self.remaining())
                    } else {
                        Seq::empty()
                    })
                    &&& first_error(src) == (if self.state() is Ok {
                        first_error(self.remaining())
                    } else {
                        self.state()
                    })
                },
                st is Err ==> dest@ == start && self.state() == st,
                done ==> self.state() is Err || self.remaining().len() == 0,
            decreases (if done { 0int } else { 1int }), self.remaining().len(),
        {
            match self.next() {
                Some(v) => {
                    dest.push(v);
                },
                None => {
                    done = true;
                },
            }
        }
        proof {
            if self.state() is Ok {
                assert(self.remaining().len() == 0);
                assert(ok_prefix(self.remaining()) == Seq::<T>::empty());
                assert(first_error(self.remaining()) == Ok::<(), E>(()));
                let u: () = self.state()->Ok_0;
                assert(self.state() == Ok::<(), E>(u));
            }
        }
        assert(dest@ + Seq::<T>::empty() =~= dest@);
    }

    /// `Ok(())`, or the first failure pulled.
    pub fn result(&self) -> (r: &Result<(), E>)
        ensures
            *r == self.state(),
    {
        &self.state
    }
}

/// Wraps `items` in a [`Process`] that has kept no failure yet.
pub fn process<T, E>(items: Vec<Result<T, E>>) -> (r: Process<T, E>)
    ensures
        r.remaining() == items@,
        r.state() is Ok,
{
    let ghost src = items@;
    let mut items = items;
    let mut rev: Vec<Result<T, E>> = Vec::new();
    while items.len() > 0
        invariant
            items@.len() + rev@.len() == src.len(),
            items@ == src.take(items@.len() as int),
            forall|i: int| 0 <= i < rev@.len() ==> #[trigger] rev@[i] == src[src.len() - 1 - i],
        decreases items@.len(),
    {
        let x = items.pop().unwrap();
        rev.push(x);
    }
    let r = Process { items: rev, state: Ok(()) };
    assert(r.remaining() =~= src);
    r
}

} // verus!
