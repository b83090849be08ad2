//! A traversal program: an ordered list of instructions, each an operator
//! name with its arguments, and the closed set of operators that the engine
//! knows.

use vstd::prelude::*;
use vstd::string::*;
use crate::error::Error;
use crate::text::text_eq;
use crate::value::{Value, ValueView, views};

verus! {

/// The operators that the engine recognizes.
#[derive(Clone, Copy, Debug, PartialEq, Eq, Structural)]
pub enum Operator {
    V,
    E,
    AddV,
    AddE,
    Property,
    Properties,
    Count,
    HasLabel,
    HasIds,
}

/// What an operator does to the stream.
#[derive(Clone, Copy, Debug, PartialEq, Eq, Structural)]
pub enum StepKind {
    /// It establishes the stream anew, and with it the terminator.
    StreamingSource,
    /// It collapses the stream to a scalar.
    ReducingBarrier,
    /// It works on the elements of the stream.
    Elementwise,
}

/// The operator that a name stands for, if it is one of the recognized names.
pub open spec fn operator_of(name: Seq<char>) -> Option<Operator> {
    if name == "V"@ {
        Some(Operator::V)
    } else if name == "E"@ {
        Some(Operator::E)
    } else if name == "addV"@ {
        Some(Operator::AddV)
    } else if name == "addE"@ {
        Some(Operator::AddE)
    } else if name == "property"@ {
        Some(Operator::Property)
    } else if name == "properties"@ {
        Some(Operator::Properties)
    } else if name == "count"@ {
        Some(Operator::Count)
    } else if name == "hasLabel"@ {
        Some(Operator::HasLabel)
    } else if name == "hasIds"@ {
        Some(Operator::HasIds)
    } else {
        None
    }
}

/// The kind of each operator.
pub open spec fn kind_of(operator: Operator) -> StepKind {
    match operator {
        Operator::V | Operator::E | Operator::AddV | Operator::AddE => StepKind::StreamingSource,
        Operator::Count => StepKind::ReducingBarrier,
        _ => StepKind::Elementwise,
    }
}

/// The recognized names are nine different texts.
pub proof fn lemma_operator_names()
    ensures
        operator_of("V"@) == Some(Operator::V),
        operator_of("E"@) == Some(Operator::E),
        operator_of("addV"@) == Some(Operator::AddV),
        operator_of("addE"@) == Some(Operator::AddE),
        operator_of("property"@) == Some(Operator::Property),
        operator_of("properties"@) == Some(Operator::Properties),
        operator_of("count"@) == Some(Operator::Count),
        operator_of("hasLabel"@) == Some(Operator::HasLabel),
        operator_of("hasIds"@) == Some(Operator::HasIds),
{
    reveal_strlit("V");
    reveal_strlit("E");
    reveal_strlit("addV");
    reveal_strlit("addE");
    reveal_strlit("property");
    reveal_strlit("properties");
    reveal_strlit("count");
    reveal_strlit("hasLabel");
    reveal_strlit("hasIds");
    assert("property"@.len() != "properties"@.len());
    assert("V"@[0] != "E"@[0]);
    assert("addV"@[3] != "addE"@[3]);
    assert("count"@[0] != "hasLabel"@[0]);
    assert("hasLabel"@[3] != "hasIds"@[3]);
}

impl Operator {
    /// The operator that a name stands for. A name outside the recognized
    /// set is refused with `UnsupportedOperator`.
    pub fn parse(name: &str) -> (parsed: Result<Operator, Error>)
        ensures
            match parsed {
                Ok(operator) => operator_of(name@) == Some(operator),
                Err(e) => e == Error::UnsupportedOperator && operator_of(name@) is None,
            },
    {
        if text_eq(name, "V") {
            Ok(Operator::V)
        } else if text_eq(name, "E") {
            Ok(Operator::E)
        } else if text_eq(name, "addV") {
            Ok(Operator::AddV)
        } else if text_eq(name, "addE") {
            Ok(Operator::AddE)
        } else if text_eq(name, "property") {
            Ok(Operator::Property)
        } else if text_eq(name, "properties") {
            Ok(Operator::Properties)
        } else if text_eq(name, "count") {
            Ok(Operator::Count)
        } else if text_eq(name, "hasLabel") {
            Ok(Operator::HasLabel)
        } else if text_eq(name, "hasIds") {
            Ok(Operator::HasIds)
        } else {
            Err(Error::UnsupportedOperator)
        }
    }

    /// The name under which a program calls the operator.
    pub fn name(&self) -> (name: &'static str)
        ensures
            operator_of(name@) == Some(*self),
    {
        proof {
            lemma_operator_names();
        }
        match self {
            Operator::V => "V",
            Operator::E => "E",
            Operator::AddV => "addV",
            Operator::AddE => "addE",
            Operator::Property => "property",
            Operator::Properties => "properties",
            Operator::Count => "count",
            Operator::HasLabel => "hasLabel",
            Operator::HasIds => "hasIds",
        }
    }

    /// What the operator does to the stream.
    pub fn kind(&self) -> (kind: StepKind)
        ensures
            kind == kind_of(*self),
    {
        match self {
            Operator::V | Operator::E | Operator::AddV | Operator::AddE => {
                StepKind::StreamingSource
            },
            Operator::Count => StepKind::ReducingBarrier,
            _ => StepKind::Elementwise,
        }
    }
}

/// The kind of the operator that a name stands for. A name outside the
/// recognized set is refused with `UnsupportedOperator`.
pub fn classify(name: &str) -> (kind: Result<StepKind, Error>)
    ensures
        match kind {
            Ok(k) => operator_of(name@) is Some && k == kind_of(operator_of(name@).unwrap()),
            Err(e) => e == Error::UnsupportedOperator && operator_of(name@) is None,
        },
{
    match Operator::parse(name) {
        Ok(operator) => Ok(operator.kind()),
        Err(e) => Err(e),
    }
}

/// Whether the name is that of a step that establishes the stream.
pub fn is_streaming_source_step(name: &str) -> (answer: bool)
    ensures
        answer == (operator_of(name@) is Some && kind_of(operator_of(name@).unwrap())
            is StreamingSource),
{
    match classify(name) {
        Ok(StepKind::StreamingSource) => true,
        _ => false,
    }
}

/// Whether the name is that of a step that collapses the stream.
pub fn is_reducing_barrier_step(name: &str) -> (answer: bool)
    ensures
        answer == (operator_of(name@) is Some && kind_of(operator_of(name@).unwrap())
            is ReducingBarrier),
{
    match classify(name) {
        Ok(StepKind::ReducingBarrier) => true,
        _ => false,
    }
}

/// One step of a program.
#[derive(Debug, PartialEq, Eq)]
pub struct Instruction {
    pub operator: String,
    pub args: Vec<Value>,
}

/// What an `Instruction` stands for.
pub struct InstructionView {
    pub operator: Seq<char>,
    pub args: Seq<ValueView>,
}

impl View for Instruction {
    type V = InstructionView;

    open spec fn view(&self) -> InstructionView {
        InstructionView { operator: self.operator@, args: views(self.args@) }
    }
}

impl Clone for Instruction {
    fn clone(&self) -> (copy: Instruction)
        ensures
            copy@ == self@,
    {
        Instruction { operator: self.operator.clone(), args: crate::value::clone_values(&self.args) }
    }
}

impl Instruction {
    /// The step that calls `operator` with `args`.
    pub fn new(operator: String, args: Vec<Value>) -> (instruction: Instruction)
        ensures
            instruction@ == (InstructionView { operator: operator@, args: views(args@) }),
    {
        Instruction { operator, args }
    }

    /// The name of the operator.
    pub fn operator(&self) -> (name: &String)
        ensures
            name@ == self@.operator,
    {
        &self.operator
    }

    /// The arguments, in order.
    pub fn args(&self) -> (args: &Vec<Value>)
        ensures
            views(args@) == self@.args,
    {
        &self.args
    }
}

/// A traversal program: its steps in the order in which they run.
#[derive(Debug, PartialEq, Eq)]
pub struct Bytecode {
    pub steps: Vec<Instruction>,
}

/// The views of a sequence of instructions, in order.
pub open spec fn instruction_views(steps: Seq<Instruction>) -> Seq<InstructionView> {
    Seq::new(steps.len(), |i: int| steps[i]@)
}

impl View for Bytecode {
    type V = Seq<InstructionView>;

    open spec fn view(&self) -> Seq<InstructionView> {
        instruction_views(self.steps@)
    }
}

impl Clone for Bytecode {
    fn clone(&self) -> (copy: Bytecode)
        ensures
            copy@ == self@,
    {
        let mut steps: Vec<Instruction> = Vec::new();
        let mut i: usize = 0;
        while i < self.steps.len()
            invariant
                i <= self.steps.len(),
                steps@.len() == i,
                forall|j: int| 0 <= j < i ==> steps@[j]@ == self.steps@[j]@,
            decreases self.steps.len() - i,
        {
            steps.push(self.steps[i].clone());
            i += 1;
        }
        let copy = Bytecode { steps };
        assert(copy@ =~= self@);
        copy
    }
}

impl Bytecode {
    /// The program without steps.
    pub fn new() -> (program: Bytecode)
        ensures
            program@ == Seq::<InstructionView>::empty(),
    {
        let program = Bytecode { steps: Vec::new() };
        assert(program@ =~= Seq::<InstructionView>::empty());
        program
    }

    /// Adds a step at the end of the program.
    pub fn add_step(&mut self, operator: String, args: Vec<Value>)
        ensures
            final(self)@ == old(self)@.push(
                InstructionView { operator: operator@, args: views(args@) },
            ),
    {
        self.steps.push(Instruction::new(operator, args));
        assert(self@ =~= old(self)@.push(
            InstructionView { operator: operator@, args: views(args@) },
        ));
    }

    /// The steps, in order.
    pub fn steps(&self) -> (steps: &Vec<Instruction>)
        ensures
            instruction_views(steps@) == self@,
    {
        &self.steps
    }
}

} // verus!
