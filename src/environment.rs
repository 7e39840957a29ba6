use vstd::hash_map::StringHashMap;
use vstd::prelude::*;
use vstd::string::StringExecFns;

use crate::error::{ErrorView, LoxError, RUNTIME};
use crate::token::{Literal, Token, Val};

verus! {

/// The error for a name that has no binding.
pub open spec fn undefined_error(name: Token) -> ErrorView {
    ErrorView {
        line: name.line,
        code: RUNTIME,
        message: "Undefined variable '"@ + name.lexeme@ + "'."@,
    }
}

/// A flat store of variables, from name to value.
pub struct Environment {
    values: StringHashMap<Literal>,
}

impl View for Environment {
    type V = Map<Seq<char>, Val>;

    closed spec fn view(&self) -> Map<Seq<char>, Val> {
        self.values@.map_values(|l: Literal| l@)
    }
}

fn undefined(name: &Token) -> (r: LoxError)
    ensures
        r@ == undefined_error(*name),
{
    let mut message = String::from_str("Undefined variable '");
    message.append(name.lexeme.as_str());
    message.append("'.");
    LoxError::from_token(name, message)
}

impl Environment {
    /// An empty store.
    pub fn new() -> (r: Environment)
        ensures
            r@ == Map::<Seq<char>, Val>::empty(),
    {
        let r = Environment { values: StringHashMap::new() };
        assert(r@ =~= Map::<Seq<char>, Val>::empty());
        r
    }

    /// Binds `name` to `value`, replacing any earlier binding.
    pub fn define(&mut self, name: String, value: Literal)
        ensures
            final(self)@ == old(self)@.insert(name@, value@),
    {
        self.values.insert(name, value);
        assert(self@ =~= old(self)@.insert(name@, value@));
    }

    /// The value bound to the token's name.
    pub fn get(&self, name: &Token) -> (r: Result<&Literal, LoxError>)
        ensures
            match r {
                Ok(v) => self@.contains_key(name.lexeme@) && v@ == self@[name.lexeme@],
                Err(e) => !self@.contains_key(name.lexeme@) && e@ == undefined_error(*name),
            },
    {
        match self.values.get(name.lexeme.as_str()) {
            Some(v) => Ok(v),
            None => Err(undefined(name)),
        }
    }

    /// Rebinds an existing name to `value` and hands the value back; a name
    /// with no binding is an error and leaves the store unchanged.
    pub fn assign(&mut self, name: &Token, value: Literal) -> (r: Result<Literal, LoxError>)
        ensures
            match r {
                Ok(v) => old(self)@.contains_key(name.lexeme@) && v == value
                    && final(self)@ == old(self)@.insert(name.lexeme@, value@),
                Err(e) => !old(self)@.contains_key(name.lexeme@) && e@ == undefined_error(*name)
                    && final(self)@ == old(self)@,
            },
    {
        if self.values.contains_key(name.lexeme.as_str()) {
            self.values.insert(name.lexeme.clone(), value.duplicate());
            assert(self@ =~= old(self)@.insert(name.lexeme@, value@));
            Ok(value)
        } else {
            Err(undefined(name))
        }
    }
}

} // verus!
