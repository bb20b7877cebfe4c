//! Migration plans: a versioned list of replace, rename and import
//! operations, validated before anything runs.
use vstd::prelude::*;
use crate::error::RefactorError;
use crate::text::{chars_of, concat, decimal, ends_with, spec_decimal, spec_ends_with, str_eq, string_from};

verus! {

/// A migration plan.
pub struct MigrationPlan {
    pub version: u32,
    pub operations: Vec<MigrationOperation>,
}

/// One operation of a plan: its type (`replace`, `rename` or `import`) and
/// its two operands.
pub struct MigrationOperation {
    pub op_type: String,
    pub from: String,
    pub to: String,
}

/// What an operation does.
#[derive(Debug, Clone, Copy, PartialEq, Eq, Structural)]
pub enum OperationKind {
    Replace,
    Rename,
    Import,
    Other,
}

/// The kind named by an operation type.
pub open spec fn spec_operation_kind(t: Seq<char>) -> OperationKind {
    if t == "replace"@ {
        OperationKind::Replace
    } else if t == "rename"@ {
        OperationKind::Rename
    } else if t == "import"@ {
        OperationKind::Import
    } else {
        OperationKind::Other
    }
}

/// Law: an operation of type `replace`, `rename` or `import` is of that
/// kind; any other type is of no known kind and is never applied.
pub proof fn law_operation_kinds(t: Seq<char>)
    ensures
        spec_operation_kind(t) == OperationKind::Replace <==> t == "replace"@,
        spec_operation_kind(t) == OperationKind::Rename <==> t == "rename"@,
        spec_operation_kind(t) == OperationKind::Import <==> t == "import"@,
{
    reveal_strlit("replace");
    reveal_strlit("rename");
    reveal_strlit("import");
    assert("replace"@.len() == 7 && "rename"@.len() == 6 && "import"@.len() == 6);
    assert("rename"@[0] == 'r' && "import"@[0] == 'i');
    if "rename"@ == "import"@ {
        assert("rename"@[0] == "import"@[0]);
    }
}

/// The kind of an operation.
pub fn operation_kind(op: &MigrationOperation) -> (r: OperationKind)
    ensures
        r == spec_operation_kind(op.op_type@),
{
    if str_eq(op.op_type.as_str(), "replace") {
        OperationKind::Replace
    } else if str_eq(op.op_type.as_str(), "rename") {
        OperationKind::Rename
    } else if str_eq(op.op_type.as_str(), "import") {
        OperationKind::Import
    } else {
        OperationKind::Other
    }
}

/// A plan file is read as JSON when its path ends with `.json`, else as TOML.
pub fn plan_is_json(path: &str) -> (r: bool)
    ensures
        r == spec_ends_with(path@, ".json"@),
{
    let p = chars_of(path);
    let s = chars_of(".json");
    ends_with(&p, &s)
}

/// A loaded plan is accepted only in version 1.
pub fn check_plan_version(plan: MigrationPlan) -> (r: Result<MigrationPlan, RefactorError>)
    ensures
        plan.version == 1 ==> r == Ok::<MigrationPlan, RefactorError>(plan),
        plan.version != 1 ==> (r matches Err(RefactorError::MigrationPlan(m)) && m@ == "Unsupported plan version: "@
            + spec_decimal(plan.version as nat)),
{
    if plan.version != 1 {
        let v = decimal(plan.version as usize);
        return Err(RefactorError::MigrationPlan(concat("Unsupported plan version: ", v.as_str())));
    }
    Ok(plan)
}

/// The operation is valid: a known type and different operands.
pub open spec fn op_valid(op: MigrationOperation) -> bool {
    spec_operation_kind(op.op_type@) != OperationKind::Other && op.from@ != op.to@
}

/// The message for the first problem of operation `i`.
pub open spec fn op_error(op: MigrationOperation, i: nat) -> Seq<char> {
    if spec_operation_kind(op.op_type@) == OperationKind::Other {
        "Unknown operation type '"@ + op.op_type@ + "' at index "@ + spec_decimal(i)
    } else {
        "Operation "@ + spec_decimal(i) + " has identical from/to: "@ + op.from@
    }
}

/// A plan is valid when every operation is; otherwise the error names the
/// first invalid operation (an unknown type before identical operands).
pub fn validate_plan(plan: &MigrationPlan) -> (r: Result<(), RefactorError>)
    ensures
        r is Ok <==> forall|i: int| 0 <= i < plan.operations@.len() ==> op_valid(#[trigger] plan.operations@[i]),
        r is Err ==> exists|i: int|
            0 <= i < plan.operations@.len() && !op_valid(#[trigger] plan.operations@[i]) && (forall|j: int|
                0 <= j < i ==> op_valid(plan.operations@[j])) && (r matches Err(RefactorError::MigrationPlan(m))
                && m@ == op_error(plan.operations@[i], i as nat)),
{
    let mut i: usize = 0;
    while i < plan.operations.len()
        invariant
            i <= plan.operations.len(),
            forall|j: int| 0 <= j < i ==> op_valid(#[trigger] plan.operations@[j]),
        decreases plan.operations.len() - i,
    {
        let op = &plan.operations[i];
        match operation_kind(op) {
            OperationKind::Other => {
                let msg = concat(
                    concat(concat("Unknown operation type '", op.op_type.as_str()).as_str(), "' at index ").as_str(),
                    decimal(i).as_str(),
                );
                let r = Err(RefactorError::MigrationPlan(msg));
                proof {
                    assert(!op_valid(plan.operations@[i as int]));
                }
                return r;
            },
            _ => {},
        }
        if str_eq(op.from.as_str(), op.to.as_str()) {
            let msg = concat(
                concat(concat("Operation ", decimal(i).as_str()).as_str(), " has identical from/to: ").as_str(),
                op.from.as_str(),
            );
            let r = Err(RefactorError::MigrationPlan(msg));
            proof {
                assert(!op_valid(plan.operations@[i as int]));
            }
            return r;
        }
        i += 1;
    }
    Ok(())
}

/// The heading of operation `i` of `n`: `Operation i+1/n: from → to`.
pub fn operation_heading(i: usize, n: usize, op: &MigrationOperation) -> (r: String)
    requires
        i < n,
    ensures
        r@ == "Operation "@ + spec_decimal((i + 1) as nat) + "/"@ + spec_decimal(n as nat) + ": "@ + op.from@
            + " \u{2192} "@ + op.to@,
{
    let a = concat("Operation ", decimal(i + 1).as_str());
    let b = concat(concat(a.as_str(), "/").as_str(), decimal(n).as_str());
    let c = concat(concat(b.as_str(), ": ").as_str(), op.from.as_str());
    concat(concat(c.as_str(), " \u{2192} ").as_str(), op.to.as_str())
}

/// One step of running a plan: its heading, what it does, its operands,
/// and whether it writes.
pub struct PlanStep {
    pub heading: String,
    pub kind: OperationKind,
    pub from: String,
    pub to: String,
    pub apply: bool,
}

/// The steps of running a plan: one per operation, in order, each writing
/// unless the run is a dry run or the operation is of an unknown kind.
pub fn execute_plan(plan: &MigrationPlan, dry_run: bool) -> (r: Vec<PlanStep>)
    ensures
        r@.len() == plan.operations@.len(),
        forall|i: int|
            0 <= i < r@.len() ==> {
                let s = #[trigger] r@[i];
                let op = plan.operations@[i];
                &&& s.kind == spec_operation_kind(op.op_type@)
                &&& s.from@ == op.from@
                &&& s.to@ == op.to@
                &&& s.apply == (!dry_run && s.kind != OperationKind::Other)
                &&& s.heading@ == "Operation "@ + spec_decimal((i + 1) as nat) + "/"@ + spec_decimal(plan.operations@.len() as nat)
                    + ": "@ + op.from@ + " \u{2192} "@ + op.to@
            },
{
    let n = plan.operations.len();
    let mut steps: Vec<PlanStep> = Vec::new();
    let mut i: usize = 0;
    while i < n
        invariant
            i <= n,
            n == plan.operations@.len(),
            steps@.len() == i,
            forall|k: int|
                0 <= k < i ==> {
                    let s = #[trigger] steps@[k];
                    let op = plan.operations@[k];
                    &&& s.kind == spec_operation_kind(op.op_type@)
                    &&& s.from@ == op.from@
                    &&& s.to@ == op.to@
                    &&& s.apply == (!dry_run && s.kind != OperationKind::Other)
                    &&& s.heading@ == "Operation "@ + spec_decimal((k + 1) as nat) + "/"@ + spec_decimal(n as nat) + ": "@ + op.from@
                        + " \u{2192} "@ + op.to@
                },
        decreases n - i,
    {
        let op = &plan.operations[i];
        let kind = operation_kind(op);
        let apply = !dry_run && kind != OperationKind::Other;
        let step = PlanStep {
            heading: operation_heading(i, n, op),
            kind,
            from: op.from.clone(),
            to: op.to.clone(),
            apply,
        };
        steps.push(step);
        i += 1;
    }
    steps
}

} // verus!
