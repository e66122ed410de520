use vstd::prelude::*;

verus! {

/// The operator at the head of an expression node.
#[allow(non_camel_case_types)]
#[derive(Clone, Copy, Debug, PartialEq, Eq, Structural)]
pub enum Operator {
    ADD,
    CALL,
    MUL,
    NONCOMMUTE,
    POWER,
}

impl Operator {
    /// The display token of the operator.
    pub open spec fn token(self) -> Seq<char> {
        match self {
            Operator::ADD => "+"@,
            Operator::CALL => "call"@,
            Operator::MUL => "*"@,
            Operator::NONCOMMUTE => "@"@,
            Operator::POWER => "^"@,
        }
    }

    pub fn as_str(&self) -> (r: &'static str)
        ensures
            r@ == self.token(),
    {
        match self {
            Operator::ADD => "+",
            Operator::CALL => "call",
            Operator::MUL => "*",
            Operator::NONCOMMUTE => "@",
            Operator::POWER => "^",
        }
    }
}

/// Distinct operators display as distinct tokens, so a token names exactly one
/// operator.
pub proof fn lemma_tokens_distinct(a: Operator, b: Operator)
    ensures
        a != b ==> a.token() != b.token(),
{
    reveal_strlit("+");
    reveal_strlit("call");
    reveal_strlit("*");
    reveal_strlit("@");
    reveal_strlit("^");
    // the tokens already differ in their first character
    assert(a != b ==> a.token()[0] != b.token()[0]);
}

} // verus!
