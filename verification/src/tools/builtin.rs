use vstd::prelude::*;

use crate::models::tool::ToolDefinition;
use crate::text::{chars_of, concat, concat3, find_char, first_index, string_of_range, strip_white_space, without_white_space};
use crate::tools::registry::{calculator_definition_view, system_command_definition_view};

verus! {

/// The definition of the built-in `calculator` tool.
pub fn calculator_definition() -> (d: ToolDefinition)
    ensures
        d@ == calculator_definition_view(),
{
    ToolDefinition::new_function(
        "calculator",
        "Evaluate basic arithmetic expressions (add, sub, mul, div)",
        "{\"type\":\"object\",\"properties\":{\"expression\":{\"type\":\"string\",\"description\":\"e.g. 42 + 8\"}},\"required\":[\"expression\"]}",
    )
}

/// The definition of the built-in `system_command` tool.
pub fn system_command_definition() -> (d: ToolDefinition)
    ensures
        d@ == system_command_definition_view(),
{
    ToolDefinition::new_function(
        "system_command",
        "Execute a sensitive system command (requires human-in-the-loop approval)",
        "{\"type\":\"object\",\"properties\":{\"command\":{\"type\":\"string\",\"description\":\"The command to run\"}},\"required\":[\"command\"]}",
    )
}

/// An arithmetic operation of the calculator.
#[derive(Debug, Clone, Copy, PartialEq, Eq, Structural)]
pub enum ArithOp {
    Add,
    Sub,
    Mul,
    Div,
}

/// How the calculator answers an expression: apply `op` to the numbers written as `left`
/// and `right`, or answer with a fixed text.
#[derive(Debug)]
pub enum CalcPlan {
    Apply { op: ArithOp, left: String, right: String },
    Echo(String),
}

/// `s` split around its first `c` (as `split_once`), if it has one.
pub open spec fn split_first(s: Seq<char>, c: char) -> Option<(Seq<char>, Seq<char>)> {
    let i = first_index(s, c);
    if i >= 0 {
        Some((s.subrange(0, i), s.subrange(i + 1, s.len() as int)))
    } else {
        None
    }
}

/// The operation the calculator applies to `expression` and its two operands: the
/// expression without white space is split at its first `+`, else its first `-`, else its
/// first `*`, else its first `/`; `None` when it holds none of them.
pub open spec fn calc_split(expression: Seq<char>) -> Option<(ArithOp, Seq<char>, Seq<char>)> {
    let s = without_white_space(expression);
    match split_first(s, '+') {
        Some((l, r)) => Some((ArithOp::Add, l, r)),
        None => match split_first(s, '-') {
            Some((l, r)) => Some((ArithOp::Sub, l, r)),
            None => match split_first(s, '*') {
                Some((l, r)) => Some((ArithOp::Mul, l, r)),
                None => match split_first(s, '/') {
                    Some((l, r)) => Some((ArithOp::Div, l, r)),
                    None => None,
                },
            },
        },
    }
}

/// The calculator's answer to an expression it cannot split.
pub open spec fn echo_text(expression: Seq<char>) -> Seq<char> {
    "Evaluated: "@ + expression
}

/// How the calculator answers `expression`: the operation and operand texts found by
/// `calc_split`, or, when there is none, the text `Evaluated: <expression>`.
pub fn calculator_plan(expression: &str) -> (r: CalcPlan)
    ensures
        match r {
            CalcPlan::Apply { op, left, right } => calc_split(expression@) == Some((op, left@, right@)),
            CalcPlan::Echo(t) => calc_split(expression@) is None && t@ == echo_text(expression@),
        },
{
    let sanitized = strip_white_space(expression);
    let cs = chars_of(sanitized.as_str());
    let ops: [ArithOp; 4] = [ArithOp::Add, ArithOp::Sub, ArithOp::Mul, ArithOp::Div];
    let syms: [char; 4] = ['+', '-', '*', '/'];
    let mut k: usize = 0;
    while k < 4
        invariant
            k <= 4,
            cs@ == without_white_space(expression@),
            ops@ == seq![ArithOp::Add, ArithOp::Sub, ArithOp::Mul, ArithOp::Div],
            syms@ == seq!['+', '-', '*', '/'],
            forall|j: int| 0 <= j < k ==> first_index(cs@, #[trigger] syms@[j]) == -1,
        decreases 4 - k,
    {
        match find_char(&cs, syms[k]) {
            Some(i) => {
                let left = string_of_range(&cs, 0, i);
                let right = string_of_range(&cs, i + 1, cs.len());
                proof {
                    if k >= 1 {
                        assert(first_index(cs@, syms@[0]) == -1);
                    }
                    if k >= 2 {
                        assert(first_index(cs@, syms@[1]) == -1);
                    }
                    if k >= 3 {
                        assert(first_index(cs@, syms@[2]) == -1);
                    }
                }
                return CalcPlan::Apply { op: ops[k], left, right };
            },
            None => {},
        }
        k = k + 1;
    }
    proof {
        assert(first_index(cs@, syms@[0]) == -1);
        assert(first_index(cs@, syms@[1]) == -1);
        assert(first_index(cs@, syms@[2]) == -1);
        assert(first_index(cs@, syms@[3]) == -1);
    }
    CalcPlan::Echo(concat("Evaluated: ", expression))
}

/// What the built-in `system_command` tool answers for `command` (it runs nothing).
pub fn system_command_output(command: &str) -> (r: String)
    ensures
        r@ == "Executed command: '"@ + command@ + "' (success)"@,
{
    concat3("Executed command: '", command, "' (success)")
}

/// The symbol that stands for an arithmetic operation.
pub open spec fn op_symbol(op: ArithOp) -> char {
    match op {
        ArithOp::Add => '+',
        ArithOp::Sub => '-',
        ArithOp::Mul => '*',
        ArithOp::Div => '/',
    }
}

/// Where `first_index` points: at the first `c`, or nowhere when there is none.
proof fn lemma_first_index_facts(s: Seq<char>, c: char)
    ensures
        -1 <= first_index(s, c) < s.len(),
        first_index(s, c) >= 0 ==> s[first_index(s, c)] == c,
        forall|j: int| 0 <= j < s.len() && (first_index(s, c) < 0 || j < first_index(s, c)) ==> s[j] != c,
    decreases s.len(),
{
    if s.len() > 0 && s[0] != c {
        let d = s.drop_first();
        lemma_first_index_facts(d, c);
        assert forall|j: int| 0 <= j < s.len() && (first_index(s, c) < 0 || j < first_index(s, c)) implies s[j] != c by {
            if j > 0 {
                assert(s[j] == d[j - 1]);
            }
        }
    }
}

/// Splitting at the first `c`: the text is the part before, `c`, and the part after, and
/// the part before holds no `c`; without a `c` there is no split.
proof fn lemma_split_first(s: Seq<char>, c: char)
    ensures
        match split_first(s, c) {
            Some((l, r)) => s == l + seq![c] + r && !l.contains(c),
            None => !s.contains(c),
        },
{
    lemma_first_index_facts(s, c);
    let i = first_index(s, c);
    if i >= 0 {
        let l = s.subrange(0, i);
        let r = s.subrange(i + 1, s.len() as int);
        assert(s =~= l + seq![c] + r);
        if l.contains(c) {
            let j = choose|j: int| 0 <= j < l.len() && l[j] == c;
            assert(s[j] == c);
        }
    } else {
        if s.contains(c) {
            let j = choose|j: int| 0 <= j < s.len() && s[j] == c;
        }
    }
}

/// The calculator reads an expression, white space removed, as two operands around the first
/// occurrence of its operator: the left operand is the text before that operator (so `a - b`
/// subtracts `b` from `a`), the right operand the text after it. The operator is `+` if the
/// text has one, else `-`, else `*`, else `/`; with none of them there is nothing to split.
pub proof fn law_calculator_splits_at_first_operator(e: Seq<char>)
    ensures
        match calc_split(e) {
            Some((op, l, r)) => {
                &&& without_white_space(e) == l + seq![op_symbol(op)] + r
                &&& !l.contains(op_symbol(op))
                &&& (op != ArithOp::Add ==> !without_white_space(e).contains('+'))
                &&& (op == ArithOp::Mul || op == ArithOp::Div ==> !without_white_space(e).contains('-'))
                &&& (op == ArithOp::Div ==> !without_white_space(e).contains('*'))
            },
            None => {
                &&& !without_white_space(e).contains('+')
                &&& !without_white_space(e).contains('-')
                &&& !without_white_space(e).contains('*')
                &&& !without_white_space(e).contains('/')
            },
        },
{
    let s = without_white_space(e);
    lemma_split_first(s, '+');
    lemma_split_first(s, '-');
    lemma_split_first(s, '*');
    lemma_split_first(s, '/');
}

} // verus!
