//! Stack-machine elimination: every instruction of a method body is rewritten
//! into statements over named variables, one variable per stack depth.

use vstd::prelude::*;
use crate::error::{InstructionKind, TransformError};
use crate::expr::{
    assign_view, mk_assign, mk_variable, stmt_expr, variable_view, Assignable, AssignableView,
    BinOp, Expr, ExprView, Relation, Statement, StatementView, UnOp,
};
use crate::instructions::{
    Arithm, BinaryOp, Instruction, Invoke, InvokeKind, JumpCondition, LValue, RValue, UnaryOp,
};
use crate::names::{local, local_name, stack, stack_name};
use crate::types::{
    views, ClassRef, ClassRefView, FieldRef, FieldRefView, Literal, LiteralView, MethodRef,
    MethodRefView, TypeView,
};
use crate::unit::{Metadata, MetadataView};

verus! {

broadcast use vstd::std_specs::hash::group_hash_axioms;

/// The expression operator that a unary opcode stands for.
pub open spec fn un_op_of(op: UnaryOp) -> UnOp {
    match op {
        UnaryOp::Neg => UnOp::Neg,
    }
}

/// The expression operator that a binary opcode stands for.
pub open spec fn bin_op_of(op: BinaryOp) -> BinOp {
    match op {
        BinaryOp::Add => BinOp::Add,
        BinaryOp::Sub => BinOp::Sub,
        BinaryOp::Mul => BinOp::Mul,
        BinaryOp::Div => BinOp::Div,
        BinaryOp::Rem => BinOp::Rem,
        BinaryOp::Shl => BinOp::Shl,
        BinaryOp::Shr => BinOp::Shr,
        BinaryOp::Ushr => BinOp::Ushr,
        BinaryOp::And => BinOp::BitAnd,
        BinaryOp::Or => BinOp::BitOr,
        BinaryOp::Xor => BinOp::BitXor,
    }
}

pub fn convert_un_op(op: UnaryOp) -> (res: UnOp)
    ensures
        res == un_op_of(op),
{
    match op {
        UnaryOp::Neg => UnOp::Neg,
    }
}

pub fn convert_bin_op(op: BinaryOp) -> (res: BinOp)
    ensures
        res == bin_op_of(op),
{
    match op {
        BinaryOp::Add => BinOp::Add,
        BinaryOp::Sub => BinOp::Sub,
        BinaryOp::Mul => BinOp::Mul,
        BinaryOp::Div => BinOp::Div,
        BinaryOp::Rem => BinOp::Rem,
        BinaryOp::Shl => BinOp::Shl,
        BinaryOp::Shr => BinOp::Shr,
        BinaryOp::Ushr => BinOp::Ushr,
        BinaryOp::And => BinOp::BitAnd,
        BinaryOp::Or => BinOp::BitOr,
        BinaryOp::Xor => BinOp::BitXor,
    }
}

/// What an instruction does to a stack of a given depth: the statements it
/// is rewritten into, and the depth it leaves.
pub struct Effect {
    pub statements: Seq<StatementView>,
    pub depth: int,
}

/// The largest depth that the counter can hold.
pub open spec fn depth_limit() -> int {
    isize::MAX as int
}

/// A read of the variable of the stack slot at depth `slot`.
pub open spec fn slot_value(slot: int) -> ExprView {
    variable_view(stack_name(slot))
}

/// The variable of the stack slot at depth `slot`, as an assignment target.
pub open spec fn slot_target(slot: int) -> AssignableView {
    AssignableView::Variable(stack_name(slot), 0)
}

/// The variable of the local in slot `index`, as an assignment target.
pub open spec fn local_target(index: nat) -> AssignableView {
    AssignableView::Variable(local_name(index), 0)
}

/// The slot that lies `index` below `depth`. The operand is consumed, so the
/// stack must hold a value, and the slot must exist under a depth that can
/// be counted.
pub open spec fn stack_operand(depth: int, index: int) -> Result<int, TransformError> {
    if depth < 1 || depth - index < 0 {
        Err(TransformError::StackUnderflow)
    } else if depth - index > depth_limit() {
        Err(TransformError::DepthLimit)
    } else {
        Ok(depth - index)
    }
}

/// The field under `field_ref` and the class that owns it.
pub open spec fn field_lookup(md: MetadataView, field_ref: u16) -> Result<
    (ClassRefView, FieldRefView),
    TransformError,
> {
    if !md.field_refs.contains_key(field_ref) {
        Err(TransformError::MissingFieldRef(field_ref))
    } else if !md.class_refs.contains_key(md.field_refs[field_ref].class_ref) {
        Err(TransformError::MissingClassRef(md.field_refs[field_ref].class_ref))
    } else {
        Ok((md.class_refs[md.field_refs[field_ref].class_ref], md.field_refs[field_ref]))
    }
}

/// The method under `method_index` and the class that owns it.
pub open spec fn method_lookup(md: MetadataView, method_index: u16) -> Result<
    (ClassRefView, MethodRefView),
    TransformError,
> {
    if !md.method_refs.contains_key(method_index) {
        Err(TransformError::MissingMethodRef(method_index))
    } else if !md.class_refs.contains_key(md.method_refs[method_index].class_ref) {
        Err(TransformError::MissingClassRef(md.method_refs[method_index].class_ref))
    } else {
        Ok((md.class_refs[md.method_refs[method_index].class_ref], md.method_refs[method_index]))
    }
}

/// The assignable that a place stands for at a given depth, and the depth
/// that is left once the stack slots it refers to are consumed.
pub open spec fn lvalue_spec(depth: int, place: LValue, md: MetadataView) -> Result<
    (AssignableView, int),
    TransformError,
> {
    match place {
        LValue::Local(index) => Ok((local_target(index as nat), depth)),
        LValue::Stack(index) => match stack_operand(depth, index as int) {
            Err(e) => Err(e),
            Ok(slot) => Ok((slot_target(slot), depth - 1)),
        },
        LValue::StaticField { field_ref } => match field_lookup(md, field_ref) {
            Err(e) => Err(e),
            Ok((class, field)) => Ok((AssignableView::Field { this: None, class, field }, depth)),
        },
        LValue::InstanceField { object_stack_index, field_ref } => match field_lookup(
            md,
            field_ref,
        ) {
            Err(e) => Err(e),
            Ok((class, field)) => match stack_operand(depth, object_stack_index as int) {
                Err(e) => Err(e),
                Ok(slot) => Ok(
                    (
                        AssignableView::Field {
                            this: Some(Box::new(slot_value(slot))),
                            class,
                            field,
                        },
                        depth - 1,
                    ),
                ),
            },
        },
    }
}

/// The expression that a loaded value stands for at a given depth, and the
/// depth that is left once the stack slots it refers to are consumed.
pub open spec fn rvalue_spec(depth: int, value: RValue, md: MetadataView) -> Result<
    (ExprView, int),
    TransformError,
> {
    match value {
        RValue::Constant(literal) => Ok((ExprView::Literal(literal@), depth)),
        RValue::ConstantRef { const_ref } => if md.literals.contains_key(const_ref) {
            Ok((ExprView::Literal(md.literals[const_ref]), depth))
        } else {
            Err(TransformError::MissingLiteral(const_ref))
        },
        RValue::LValue(place) => match lvalue_spec(depth, place, md) {
            Err(e) => Err(e),
            Ok((assignable, left)) => Ok((ExprView::Assignable(Box::new(assignable)), left)),
        },
    }
}

/// Whether an invocation of this kind takes a receiver from the stack.
pub open spec fn takes_receiver(kind: InvokeKind) -> bool {
    kind == InvokeKind::Virtual || kind == InvokeKind::Special
}

/// The call that an invocation stands for at depth `depth`: the arguments
/// are the topmost slots in the order in which they were pushed, and the
/// receiver (for virtual and special calls) is the slot below them.
pub open spec fn call_view(depth: int, invoke: Invoke, class: ClassRefView, method: MethodRefView)
    -> ExprView {
    let count = method.signature.parameters.len() as int;
    let first = depth - count;
    ExprView::Invoke(
        if takes_receiver(invoke.kind) {
            Some(Box::new(slot_value(first - 1)))
        } else {
            None
        },
        method,
        class,
        Seq::new(count as nat, |k: int| slot_value(first + k)),
    )
}

/// The number of stack slots that an invocation consumes: one for each
/// parameter, and one for the receiver of a virtual or special call.
pub open spec fn consumed_by(invoke: Invoke, method: MethodRefView) -> int {
    method.signature.parameters.len() + if takes_receiver(invoke.kind) {
        1int
    } else {
        0int
    }
}

/// The effect of an invocation: a void method gives a bare call, any other
/// assigns the call to the slot that the operands freed.
pub open spec fn invoke_spec(depth: int, invoke: Invoke, md: MetadataView) -> Result<
    Effect,
    TransformError,
> {
    match method_lookup(md, invoke.method_index) {
        Err(e) => Err(e),
        Ok((class, method)) => {
            let base = depth - consumed_by(invoke, method);
            let call = call_view(depth, invoke, class, method);
            if base < 0 {
                Err(TransformError::StackUnderflow)
            } else if method.signature.return_type == TypeView::Void {
                Ok(Effect { statements: seq![StatementView::Expr(call)], depth: base })
            } else if base >= depth_limit() {
                Err(TransformError::DepthLimit)
            } else {
                Ok(
                    Effect {
                        statements: seq![assign_view(slot_target(base), call)],
                        depth: base + 1,
                    },
                )
            }
        },
    }
}

/// The effect of one instruction on a stack of depth `depth`, or the reason
/// why it cannot be rewritten. A jump has no effect of its own: it never
/// stands inside a block.
pub open spec fn execute_spec(depth: int, instruction: Instruction, md: MetadataView) -> Result<
    Effect,
    TransformError,
> {
    match instruction {
        Instruction::Nop => Ok(Effect { statements: seq![], depth }),
        Instruction::Load(value) => match rvalue_spec(depth, value, md) {
            Err(e) => Err(e),
            Ok((expr, left)) => if left >= depth_limit() {
                Err(TransformError::DepthLimit)
            } else {
                Ok(
                    Effect {
                        statements: seq![assign_view(slot_target(left), expr)],
                        depth: left + 1,
                    },
                )
            },
        },
        Instruction::Store(place) => match lvalue_spec(depth, place, md) {
            Err(e) => Err(e),
            Ok((target, left)) => if left < 1 {
                Err(TransformError::StackUnderflow)
            } else {
                Ok(
                    Effect {
                        statements: seq![assign_view(target, slot_value(left - 1))],
                        depth: left - 1,
                    },
                )
            },
        },
        Instruction::Arithm(Arithm::UnaryOp(op)) => if depth < 1 {
            Err(TransformError::StackUnderflow)
        } else {
            Ok(
                Effect {
                    statements: seq![
                        assign_view(
                            slot_target(depth - 1),
                            ExprView::UnaryOp(un_op_of(op), Box::new(slot_value(depth - 1))),
                        ),
                    ],
                    depth,
                },
            )
        },
        Instruction::Arithm(Arithm::BinaryOp(op)) => if depth < 2 {
            Err(TransformError::StackUnderflow)
        } else {
            Ok(
                Effect {
                    statements: seq![
                        assign_view(
                            slot_target(depth - 2),
                            ExprView::BinaryOp(
                                bin_op_of(op),
                                Box::new(slot_value(depth - 2)),
                                Box::new(slot_value(depth - 1)),
                            ),
                        ),
                    ],
                    depth: depth - 1,
                },
            )
        },
        Instruction::Arithm(Arithm::IncreaseLocal { local_index, increase }) => Ok(
            Effect {
                statements: seq![
                    assign_view(
                        local_target(local_index as nat),
                        ExprView::BinaryOp(
                            BinOp::Add,
                            Box::new(ExprView::Assignable(Box::new(local_target(local_index as nat)))),
                            Box::new(ExprView::Literal(LiteralView::Integer(increase as i32))),
                        ),
                    ),
                ],
                depth,
            },
        ),
        Instruction::TypeConv(_) => Err(TransformError::Unsupported(InstructionKind::TypeConv)),
        Instruction::ObjManip(_) => Err(TransformError::Unsupported(InstructionKind::ObjManip)),
        Instruction::StackManage(_) => Err(
            TransformError::Unsupported(InstructionKind::StackManage),
        ),
        Instruction::Jump(_) => Ok(Effect { statements: seq![], depth }),
        Instruction::Invoke(invoke) => invoke_spec(depth, invoke, md),
        Instruction::Throw => Err(TransformError::Unsupported(InstructionKind::Throw)),
        Instruction::Return(value) => match value {
            None => Ok(Effect { statements: seq![StatementView::Return(None)], depth }),
            Some(_) => if depth < 1 {
                Err(TransformError::StackUnderflow)
            } else {
                Ok(
                    Effect {
                        statements: seq![StatementView::Return(Some(slot_value(depth - 1)))],
                        depth: depth - 1,
                    },
                )
            },
        },
        Instruction::Synchronized(_) => Err(
            TransformError::Unsupported(InstructionKind::Synchronized),
        ),
    }
}

/// The comparison that a branch condition stands for at a given depth, and
/// the depth that is left once its operands are consumed. The value pushed
/// last is the right operand.
pub open spec fn condition_spec(depth: int, condition: JumpCondition) -> Result<
    (ExprView, int),
    TransformError,
> {
    match condition {
        JumpCondition::CompareZero(relation) => if depth < 1 {
            Err(TransformError::StackUnderflow)
        } else {
            Ok(
                (
                    ExprView::BinaryOp(
                        BinOp::Compare(relation),
                        Box::new(slot_value(depth - 1)),
                        Box::new(ExprView::Literal(LiteralView::Integer(0))),
                    ),
                    depth - 1,
                ),
            )
        },
        JumpCondition::Compare(relation) => compare_two(depth, relation),
        JumpCondition::CompareRef(relation) => compare_two(depth, relation),
    }
}

/// The comparison of the two topmost slots, left operand below right.
pub open spec fn compare_two(depth: int, relation: Relation) -> Result<
    (ExprView, int),
    TransformError,
> {
    if depth < 2 {
        Err(TransformError::StackUnderflow)
    } else {
        Ok(
            (
                ExprView::BinaryOp(
                    BinOp::Compare(relation),
                    Box::new(slot_value(depth - 2)),
                    Box::new(slot_value(depth - 1)),
                ),
                depth - 2,
            ),
        )
    }
}

/// An instruction that can be rewritten at a depth that is not negative
/// leaves a depth that is not negative.
pub proof fn lemma_execute_keeps_depth(depth: int, instruction: Instruction, md: MetadataView)
    requires
        depth >= 0,
    ensures
        execute_spec(depth, instruction, md) matches Ok(effect) ==> effect.depth >= 0,
{
}

/// A branch condition that can be rewritten at a depth that is not
/// negative leaves a depth that is not negative.
pub proof fn lemma_condition_keeps_depth(depth: int, condition: JumpCondition)
    requires
        depth >= 0,
    ensures
        condition_spec(depth, condition) matches Ok((_, left)) ==> left >= 0,
{
}

/// The value pushed last is the right operand: a binary operation on a
/// stack of depth `depth` takes the slot at `depth - 2` as its left and the
/// slot at `depth - 1` as its right operand, and assigns to the former.
pub proof fn lemma_binary_operand_order(depth: int, op: BinaryOp, md: MetadataView)
    requires
        depth >= 2,
    ensures
        execute_spec(depth, Instruction::Arithm(Arithm::BinaryOp(op)), md) == Ok::<
            Effect,
            TransformError,
        >(
            Effect {
                statements: seq![
                    assign_view(
                        slot_target(depth - 2),
                        ExprView::BinaryOp(
                            bin_op_of(op),
                            Box::new(slot_value(depth - 2)),
                            Box::new(slot_value(depth - 1)),
                        ),
                    ),
                ],
                depth: depth - 1,
            },
        ),
{
}

/// An invocation that can be rewritten emits one statement. For a void
/// method it is the bare call, and the depth drops by what the call
/// consumes; for any other method the call is assigned to the slot that the
/// operands freed, and the depth is one more than that.
pub proof fn lemma_invoke_depth(depth: int, invoke: Invoke, md: MetadataView)
    requires
        invoke_spec(depth, invoke, md) is Ok,
    ensures
        ({
            let effect = invoke_spec(depth, invoke, md)->Ok_0;
            let found = method_lookup(md, invoke.method_index)->Ok_0;
            let base = depth - consumed_by(invoke, found.1);
            let call = call_view(depth, invoke, found.0, found.1);
            &&& base >= 0
            &&& found.1.signature.return_type == TypeView::Void ==> effect == Effect {
                statements: seq![StatementView::Expr(call)],
                depth: base,
            }
            &&& found.1.signature.return_type != TypeView::Void ==> effect == Effect {
                statements: seq![assign_view(slot_target(base), call)],
                depth: base + 1,
            }
        }),
{
}

/// The depth of the operand stack at a program point.
#[derive(Copy, Clone, Debug, PartialEq, Eq, Structural)]
pub struct StackLayout(pub isize);

impl Default for StackLayout {
    fn default() -> (layout: Self)
        ensures
            layout.0 == 0,
    {
        StackLayout(0)
    }
}

fn lookup_field(metadata: &Metadata, field_ref: u16) -> (res: Result<
    (ClassRef, FieldRef),
    TransformError,
>)
    ensures
        match (field_lookup(metadata@, field_ref), res) {
            (Ok((class, field)), Ok(found)) => found.0@ == class && found.1@ == field,
            (Err(e), Err(r)) => r == e,
            _ => false,
        },
{
    match metadata.field_refs.get(&field_ref) {
        None => Err(TransformError::MissingFieldRef(field_ref)),
        Some(field) => match metadata.class_refs.get(&field.class_ref) {
            None => Err(TransformError::MissingClassRef(field.class_ref)),
            Some(class) => Ok((class.clone(), field.clone())),
        },
    }
}

fn lookup_method(metadata: &Metadata, method_index: u16) -> (res: Result<
    (ClassRef, MethodRef),
    TransformError,
>)
    ensures
        match (method_lookup(metadata@, method_index), res) {
            (Ok((class, method)), Ok(found)) => found.0@ == class && found.1@ == method,
            (Err(e), Err(r)) => r == e,
            _ => false,
        },
{
    match metadata.method_refs.get(&method_index) {
        None => Err(TransformError::MissingMethodRef(method_index)),
        Some(method) => match metadata.class_refs.get(&method.class_ref) {
            None => Err(TransformError::MissingClassRef(method.class_ref)),
            Some(class) => Ok((class.clone(), method.clone())),
        },
    }
}

fn slot_variable(slot: isize) -> (target: Assignable)
    ensures
        target@ == slot_target(slot as int),
{
    Assignable::Variable(stack(slot), 0)
}

pub(crate) fn local_variable(index: usize) -> (target: Assignable)
    ensures
        target@ == local_target(index as nat),
{
    Assignable::Variable(local(index), 0)
}

fn slot_read(slot: isize) -> (e: Expr)
    ensures
        e@ == slot_value(slot as int),
{
    mk_variable(stack(slot))
}

fn assignable_read(target: Assignable) -> (e: Expr)
    ensures
        e@ == ExprView::Assignable(Box::new(target@)),
{
    Expr::Assignable(Box::new(target))
}

fn literal_expr(literal: Literal) -> (e: Expr)
    ensures
        e@ == ExprView::Literal(literal@),
{
    Expr::Literal(literal)
}

fn unary_expr(op: UnOp, operand: Expr) -> (e: Expr)
    ensures
        e@ == ExprView::UnaryOp(op, Box::new(operand@)),
{
    Expr::UnaryOp(op, Box::new(operand))
}

fn binary_expr(op: BinOp, left: Expr, right: Expr) -> (e: Expr)
    ensures
        e@ == ExprView::BinaryOp(op, Box::new(left@), Box::new(right@)),
{
    Expr::BinaryOp(op, Box::new(left), Box::new(right))
}

fn field_of(object: Option<Expr>, class: ClassRef, field: FieldRef) -> (target: Assignable)
    ensures
        target@ == (AssignableView::Field {
            this: match object {
                Some(e) => Some(Box::new(e@)),
                None => None,
            },
            class: class@,
            field: field@,
        }),
{
    match object {
        Some(e) => Assignable::Field { this: Some(Box::new(e)), class, field },
        None => Assignable::Field { this: None, class, field },
    }
}

fn invoke_expr(receiver: Option<Expr>, method: MethodRef, class: ClassRef, args: Vec<Expr>) -> (e:
    Expr)
    ensures
        e@ == ExprView::Invoke(
            match receiver {
                Some(object) => Some(Box::new(object@)),
                None => None,
            },
            method@,
            class@,
            views(args@),
        ),
{
    let e = match receiver {
        Some(object) => Expr::Invoke(Some(Box::new(object)), method, class, args),
        None => Expr::Invoke(None, method, class, args),
    };
    assert(e@->Invoke_3 =~= views(args@));
    e
}

fn single(statement: Statement) -> (statements: Vec<Statement>)
    ensures
        views(statements@) == seq![statement@],
{
    let mut statements: Vec<Statement> = Vec::new();
    statements.push(statement);
    assert(views(statements@) =~= seq![statement@]);
    statements
}

impl StackLayout {
    /// The counter is never negative.
    pub open spec fn wf(&self) -> bool {
        self.0 >= 0
    }

    /// The empty stack.
    pub fn new() -> (layout: Self)
        ensures
            layout.0 == 0,
            layout.wf(),
    {
        StackLayout(0)
    }

    /// The slot that lies `i` below the current depth.
    pub fn get(&self, i: isize) -> (slot: isize)
        requires
            isize::MIN <= self.0 - i <= isize::MAX,
        ensures
            slot == self.0 - i,
    {
        self.0 - i
    }

    /// Claims the next slot and returns its index.
    pub fn push(&mut self) -> (slot: isize)
        requires
            old(self).0 < isize::MAX,
        ensures
            final(self).0 == old(self).0 + 1,
            slot == old(self).0,
            old(self).wf() ==> final(self).wf(),
    {
        self.0 = self.0 + 1;
        self.0 - 1
    }

    /// Frees the topmost slot and returns its index.
    pub fn pop(&mut self) -> (slot: isize)
        requires
            old(self).0 >= 1,
        ensures
            final(self).0 == old(self).0 - 1,
            slot == final(self).0,
            final(self).wf(),
    {
        self.0 = self.0 - 1;
        self.0
    }

    fn operand_slot(&self, index: isize) -> (res: Result<isize, TransformError>)
        requires
            self.wf(),
        ensures
            match (stack_operand(self.0 as int, index as int), res) {
                (Ok(slot), Ok(found)) => found == slot,
                (Err(e), Err(r)) => r == e,
                _ => false,
            },
    {
        if self.0 < 1 || index > self.0 {
            Err(TransformError::StackUnderflow)
        } else if index < self.0 - isize::MAX {
            Err(TransformError::DepthLimit)
        } else {
            Ok(self.get(index))
        }
    }

    fn make_stack_vars_lvalue(&mut self, place: &LValue, metadata: &Metadata) -> (res: Result<
        Assignable,
        TransformError,
    >)
        requires
            old(self).wf(),
        ensures
            final(self).wf(),
            match (lvalue_spec(old(self).0 as int, *place, metadata@), res) {
                (Ok((target, left)), Ok(found)) => found@ == target && final(self).0 == left,
                (Err(e), Err(r)) => r == e && *final(self) == *old(self),
                _ => false,
            },
    {
        match *place {
            LValue::Local(index) => Ok(local_variable(index)),
            LValue::Stack(index) => match self.operand_slot(index) {
                Err(e) => Err(e),
                Ok(slot) => {
                    self.0 = self.0 - 1;
                    Ok(slot_variable(slot))
                },
            },
            LValue::StaticField { field_ref } => match lookup_field(metadata, field_ref) {
                Err(e) => Err(e),
                Ok((class, field)) => Ok(field_of(None, class, field)),
            },
            LValue::InstanceField { object_stack_index, field_ref } => match lookup_field(
                metadata,
                field_ref,
            ) {
                Err(e) => Err(e),
                Ok((class, field)) => match self.operand_slot(object_stack_index) {
                    Err(e) => Err(e),
                    Ok(slot) => {
                        self.0 = self.0 - 1;
                        Ok(field_of(Some(slot_read(slot)), class, field))
                    },
                },
            },
        }
    }

    fn make_stack_vars_rvalue(&mut self, value: &RValue, metadata: &Metadata) -> (res: Result<
        Expr,
        TransformError,
    >)
        requires
            old(self).wf(),
        ensures
            final(self).wf(),
            match (rvalue_spec(old(self).0 as int, *value, metadata@), res) {
                (Ok((expr, left)), Ok(found)) => found@ == expr && final(self).0 == left,
                (Err(e), Err(r)) => r == e && *final(self) == *old(self),
                _ => false,
            },
    {
        match value {
            RValue::Constant(literal) => Ok(literal_expr(literal.clone())),
            RValue::ConstantRef { const_ref } => match metadata.literals.get(const_ref) {
                None => Err(TransformError::MissingLiteral(*const_ref)),
                Some(literal) => Ok(literal_expr(literal.clone())),
            },
            RValue::LValue(place) => match self.make_stack_vars_lvalue(place, metadata) {
                Err(e) => Err(e),
                Ok(target) => Ok(assignable_read(target)),
            },
        }
    }

    fn invoke(&mut self, invoke: &Invoke, metadata: &Metadata) -> (res: Result<
        Vec<Statement>,
        TransformError,
    >)
        requires
            old(self).wf(),
        ensures
            final(self).wf(),
            match (invoke_spec(old(self).0 as int, *invoke, metadata@), res) {
                (Ok(effect), Ok(statements)) => views(statements@) == effect.statements && final(self).0 == effect.depth,
                (Err(e), Err(r)) => r == e && *final(self) == *old(self),
                _ => false,
            },
    {
        let (class, method) = match lookup_method(metadata, invoke.method_index) {
            Err(e) => {
                return Err(e);
            },
            Ok(found) => found,
        };
        let count: usize = method.signature.parameters.len();
        let with_receiver = match invoke.kind {
            InvokeKind::Virtual => true,
            InvokeKind::Special => true,
            _ => false,
        };
        let depth: usize = self.0 as usize;
        assert(method@.signature.parameters.len() == count);
        if depth < count || (with_receiver && depth == count) {
            return Err(TransformError::StackUnderflow);
        }
        let first: isize = (depth - count) as isize;
        let base: isize = if with_receiver {
            first - 1
        } else {
            first
        };
        let returns_void = method.signature.return_type.is_void();
        if !returns_void && base == isize::MAX {
            return Err(TransformError::DepthLimit);
        }
        let receiver = if with_receiver {
            Some(slot_read(base))
        } else {
            None
        };
        let mut args: Vec<Expr> = Vec::new();
        let mut k: usize = 0;
        while k < count
            invariant
                k <= count,
                args@.len() == k,
                0 <= first,
                first + count <= isize::MAX,
                forall|j: int| 0 <= j < k ==> (#[trigger] args@[j])@ == slot_value(first + j),
            decreases count - k,
        {
            args.push(slot_read(first + k as isize));
            k = k + 1;
        }
        assert(views(args@) =~= Seq::new(count as nat, |k: int| slot_value(first + k)));
        let call = invoke_expr(receiver, method, class, args);
        if returns_void {
            self.0 = base;
            Ok(single(stmt_expr(call)))
        } else {
            self.0 = base + 1;
            Ok(single(mk_assign(slot_variable(base), call)))
        }
    }

    /// Rewrites one instruction: emits its statements and moves the depth by
    /// its net stack effect. On an error the depth is left as it was.
    pub fn execute(&mut self, instruction: &Instruction, metadata: &Metadata) -> (res: Result<
        Vec<Statement>,
        TransformError,
    >)
        requires
            old(self).wf(),
            !(instruction is Jump),
        ensures
            final(self).wf(),
            match (execute_spec(old(self).0 as int, *instruction, metadata@), res) {
                (Ok(effect), Ok(statements)) => views(statements@) == effect.statements && final(self).0 == effect.depth,
                (Err(e), Err(r)) => r == e && *final(self) == *old(self),
                _ => false,
            },
    {
        match instruction {
            Instruction::Nop => {
                let statements: Vec<Statement> = Vec::new();
                assert(views(statements@) =~= seq![]);
                Ok(statements)
            },
            Instruction::Load(value) => {
                let before = *self;
                match self.make_stack_vars_rvalue(value, metadata) {
                    Err(e) => Err(e),
                    Ok(expr) => {
                        if self.0 == isize::MAX {
                            *self = before;
                            return Err(TransformError::DepthLimit);
                        }
                        let top = self.push();
                        Ok(single(mk_assign(slot_variable(top), expr)))
                    },
                }
            },
            Instruction::Store(place) => {
                let before = *self;
                match self.make_stack_vars_lvalue(place, metadata) {
                    Err(e) => Err(e),
                    Ok(target) => {
                        if self.0 < 1 {
                            *self = before;
                            return Err(TransformError::StackUnderflow);
                        }
                        let top = self.pop();
                        Ok(single(mk_assign(target, slot_read(top))))
                    },
                }
            },
            Instruction::Arithm(Arithm::UnaryOp(op)) => {
                if self.0 < 1 {
                    return Err(TransformError::StackUnderflow);
                }
                let v = self.pop();
                let res = self.push();
                Ok(
                    single(
                        mk_assign(slot_variable(res), unary_expr(convert_un_op(*op), slot_read(v))),
                    ),
                )
            },
            Instruction::Arithm(Arithm::BinaryOp(op)) => {
                if self.0 < 2 {
                    return Err(TransformError::StackUnderflow);
                }
                let w = self.pop();
                let v = self.pop();
                let res = self.push();
                Ok(
                    single(
                        mk_assign(
                            slot_variable(res),
                            binary_expr(convert_bin_op(*op), slot_read(v), slot_read(w)),
                        ),
                    ),
                )
            },
            Instruction::Arithm(Arithm::IncreaseLocal { local_index, increase }) => {
                let index: usize = *local_index as usize;
                let from = binary_expr(
                    BinOp::Add,
                    assignable_read(local_variable(index)),
                    literal_expr(Literal::Integer(*increase as i32)),
                );
                Ok(single(mk_assign(local_variable(index), from)))
            },
            Instruction::TypeConv(_) => Err(TransformError::Unsupported(InstructionKind::TypeConv)),
            Instruction::ObjManip(_) => Err(TransformError::Unsupported(InstructionKind::ObjManip)),
            Instruction::StackManage(_) => Err(
                TransformError::Unsupported(InstructionKind::StackManage),
            ),
            Instruction::Jump(_) => unreached(),
            Instruction::Invoke(invoke) => self.invoke(invoke, metadata),
            Instruction::Throw => Err(TransformError::Unsupported(InstructionKind::Throw)),
            Instruction::Return(value) => match value {
                None => Ok(single(Statement::Return(None))),
                Some(_) => {
                    if self.0 < 1 {
                        return Err(TransformError::StackUnderflow);
                    }
                    let top = self.pop();
                    Ok(single(Statement::Return(Some(slot_read(top)))))
                },
            },
            Instruction::Synchronized(_) => Err(
                TransformError::Unsupported(InstructionKind::Synchronized),
            ),
        }
    }

    /// Rewrites the condition of a branch into a comparison, consuming its
    /// operands. On an error the depth is left as it was.
    pub fn cond_to_expr(&mut self, cond: &JumpCondition) -> (res: Result<Expr, TransformError>)
        requires
            old(self).wf(),
        ensures
            final(self).wf(),
            match (condition_spec(old(self).0 as int, *cond), res) {
                (Ok((expr, left)), Ok(found)) => found@ == expr && final(self).0 == left,
                (Err(e), Err(r)) => r == e && *final(self) == *old(self),
                _ => false,
            },
    {
        match *cond {
            JumpCondition::CompareZero(relation) => {
                if self.0 < 1 {
                    return Err(TransformError::StackUnderflow);
                }
                let v = self.pop();
                Ok(
                    binary_expr(
                        BinOp::Compare(relation),
                        slot_read(v),
                        literal_expr(Literal::Integer(0)),
                    ),
                )
            },
            JumpCondition::Compare(relation) => self.compare_top_two(relation),
            JumpCondition::CompareRef(relation) => self.compare_top_two(relation),
        }
    }

    fn compare_top_two(&mut self, relation: Relation) -> (res: Result<
        Expr,
        TransformError,
    >)
        requires
            old(self).wf(),
        ensures
            final(self).wf(),
            match (compare_two(old(self).0 as int, relation), res) {
                (Ok((expr, left)), Ok(found)) => found@ == expr && final(self).0 == left,
                (Err(e), Err(r)) => r == e && *final(self) == *old(self),
                _ => false,
            },
    {
        if self.0 < 2 {
            return Err(TransformError::StackUnderflow);
        }
        let w = self.pop();
        let v = self.pop();
        Ok(binary_expr(BinOp::Compare(relation), slot_read(v), slot_read(w)))
    }
}

} // verus!
