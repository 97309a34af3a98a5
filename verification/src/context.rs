//! The fact sheet that parsing a prompt yields.

use crate::keys::{Period, PromptKey};
use vstd::prelude::*;

verus! {

/// A fact sheet as a mathematical value.
pub struct Facts {
    /// The keys found, in the order in which they were added.
    pub keys: Seq<PromptKey>,
    /// The period that the prompt names, if any.
    pub period: Option<Period>,
    /// The amount that the prompt names, if any.
    pub amount: Option<usize>,
}

impl Facts {
    /// The fact sheet of a prompt in which nothing was recognised.
    pub open spec fn empty() -> Facts {
        Facts { keys: Seq::empty(), period: None, amount: None }
    }

    /// This sheet with `key` added, unless it is there already.
    pub open spec fn with_key(self, key: PromptKey) -> Facts {
        if self.keys.contains(key) {
            self
        } else {
            Facts { keys: self.keys.push(key), ..self }
        }
    }

    /// This sheet with its period set to `period`.
    pub open spec fn with_period(self, period: Period) -> Facts {
        Facts { period: Some(period), ..self }
    }

    /// This sheet with its amount set to `amount`.
    pub open spec fn with_amount(self, amount: usize) -> Facts {
        Facts { amount: Some(amount), ..self }
    }
}

/// What was recognised in a prompt: the keys found, without repetition and in
/// the order in which they were added, at most one period and at most one
/// amount.
#[derive(Debug, PartialEq)]
pub struct PromptContext {
    keys: Vec<PromptKey>,
    period: Option<Period>,
    amount: Option<usize>,
}

impl View for PromptContext {
    type V = Facts;

    closed spec fn view(&self) -> Facts {
        Facts { keys: self.keys@, period: self.period, amount: self.amount }
    }
}

impl PromptContext {
    #[verifier::type_invariant]
    spec fn distinct_keys(self) -> bool {
        self.keys@.no_duplicates()
    }

    /// An empty fact sheet.
    pub fn new() -> (r: Self)
        ensures
            r@ == Facts::empty(),
    {
        PromptContext { keys: Vec::new(), period: None, amount: None }
    }

    /// The keys found, each once, in the order in which they were added.
    pub fn keys(&self) -> (r: &[PromptKey])
        ensures
            r@ == self@.keys,
            r@.no_duplicates(),
    {
        proof {
            use_type_invariant(self);
        }
        self.keys.as_slice()
    }

    /// The period found, if any.
    pub fn period(&self) -> (r: Option<Period>)
        ensures
            r == self@.period,
    {
        self.period
    }

    /// The amount found, if any.
    pub fn amount(&self) -> (r: Option<usize>)
        ensures
            r == self@.amount,
    {
        self.amount
    }

    /// Whether `key` was found.
    pub fn has_key(&self, key: PromptKey) -> (r: bool)
        ensures
            r == self@.keys.contains(key),
    {
        let mut i: usize = 0;
        while i < self.keys.len()
            invariant
                i <= self.keys.len(),
                forall|j: int| 0 <= j < i ==> self.keys@[j] != key,
            decreases self.keys.len() - i,
        {
            if self.keys[i] == key {
                return true;
            }
            i += 1;
        }
        false
    }

    /// Records `key` as found. A key that is there already is not added again.
    pub fn add_key(&mut self, key: PromptKey)
        ensures
            final(self)@ == old(self)@.with_key(key),
    {
        if !self.has_key(key) {
            proof {
                use_type_invariant(&*self);
            }
            let mut keys: Vec<PromptKey> = Vec::new();
            let mut i: usize = 0;
            while i < self.keys.len()
                invariant
                    i <= self.keys.len(),
                    keys@ == self.keys@.take(i as int),
                decreases self.keys.len() - i,
            {
                keys.push(self.keys[i]);
                i += 1;
                assert(keys@ =~= self.keys@.take(i as int));
            }
            assert(keys@ =~= self.keys@);
            keys.push(key);
            self.keys = keys;
        }
    }

    /// Sets the amount, replacing an earlier one.
    pub fn set_amount(&mut self, num: usize)
        ensures
            final(self)@ == old(self)@.with_amount(num),
    {
        proof {
            use_type_invariant(&*self);
        }
        self.amount = Some(num);
    }

    /// Sets the period, replacing an earlier one.
    pub fn set_period(&mut self, period: Period)
        ensures
            final(self)@ == old(self)@.with_period(period),
    {
        proof {
            use_type_invariant(&*self);
        }
        self.period = Some(period);
    }
}

impl Default for PromptContext {
    fn default() -> (r: Self)
        ensures
            r@ == Facts::empty(),
    {
        PromptContext::new()
    }
}

} // verus!
