//! Expression nodes of a plan, stored in an arena and linked by handle.

use vstd::prelude::*;
use vstd::string::*;
use crate::arena::Arena;
use crate::arena::Node;
use crate::datatypes::DataType;
use crate::schema::Schema;
use crate::series::AnyValue;

verus! {

/// A constant of an expression, with its type.
#[derive(Debug, PartialEq, Eq)]
pub struct LiteralValue {
    pub value: AnyValue,
    pub dtype: DataType,
}

/// The operator of a binary expression.
#[derive(Clone, Copy, Debug, PartialEq, Eq, Structural)]
pub enum Operator {
    Eq,
    NotEq,
    Lt,
    LtEq,
    Gt,
    GtEq,
    Plus,
    Minus,
    Multiply,
    Divide,
    FloorDivide,
    Modulus,
    And,
    Or,
    Xor,
}

/// Functions on strings.
#[derive(Clone, Copy, Debug, PartialEq, Eq, Structural)]
pub enum StringFunction {
    LenBytes,
    LenChars,
    Lowercase,
    Uppercase,
}

/// Functions on binary values.
#[derive(Clone, Copy, Debug, PartialEq, Eq, Structural)]
pub enum BinaryFunction {
    Size,
    Reverse,
}

/// Functions on dates, times, datetimes and durations.
#[derive(Clone, Copy, Debug, PartialEq, Eq, Structural)]
pub enum TemporalFunction {
    Year,
    Month,
    Day,
    TotalSeconds,
}

/// Functions on lists.
#[derive(Clone, Copy, Debug, PartialEq, Eq, Structural)]
pub enum ListFunction {
    Length,
    Get,
    Reverse,
}

/// Functions on fixed-size lists.
#[derive(Clone, Copy, Debug, PartialEq, Eq, Structural)]
pub enum ArrayFunction {
    Length,
    Get,
    Reverse,
}

/// Functions on structs.
#[derive(Clone, Copy, Debug, PartialEq, Eq, Structural)]
pub enum StructFunction {
    FieldByIndex,
    JsonEncode,
}

/// Functions on categoricals.
#[derive(Clone, Copy, Debug, PartialEq, Eq, Structural)]
pub enum CategoricalFunction {
    GetCategories,
    LenBytes,
}

/// Functions on the bits of a value.
#[derive(Clone, Copy, Debug, PartialEq, Eq, Structural)]
pub enum IRBitwiseFunction {
    CountOnes,
    CountZeros,
    LeadingOnes,
    LeadingZeros,
    TrailingOnes,
    TrailingZeros,
    And,
    Or,
    Xor,
}

/// Functions on extension types.
#[derive(Debug, PartialEq, Eq)]
pub enum IRExtensionFunction {
    To(DataType),
    Storage,
}

/// A function of an expression, by the namespace it belongs to.
#[derive(Debug, PartialEq, Eq)]
pub enum IRFunctionExpr {
    StringExpr(StringFunction),
    BinaryExpr(BinaryFunction),
    TemporalExpr(TemporalFunction),
    ListExpr(ListFunction),
    ArrayExpr(ArrayFunction),
    StructExpr(StructFunction),
    Categorical(CategoricalFunction),
    Bitwise(IRBitwiseFunction),
    Extension(IRExtensionFunction),
    Negate,
    Floor,
    Ceil,
    Coalesce,
}

/// An expression as an input of a plan node: its root and, where it was
/// given one, the name of the column it makes.
#[derive(Debug, PartialEq, Eq)]
pub struct ExprIR {
    pub node: Node,
    pub output_name: Option<String>,
}

/// A node of an expression. It names its inputs by handle.
#[allow(inconsistent_fields)]
#[derive(Debug, PartialEq, Eq)]
pub enum AExpr {
    Column(String),
    Literal(LiteralValue),
    BinaryExpr { left: Node, op: Operator, right: Node },
    Cast { expr: Node, dtype: DataType, strict: bool },
    Sort { expr: Node, descending: bool },
    Filter { input: Node, by: Node },
    Ternary { predicate: Node, truthy: Node, falsy: Node },
    Function { input: Vec<ExprIR>, function: IRFunctionExpr },
    Len,
}

/// The handles of the inputs of a node, in the order in which the node
/// lists them.
pub open spec fn children_of(e: AExpr) -> Seq<Node> {
    match e {
        AExpr::Column(_) => Seq::empty(),
        AExpr::Literal(_) => Seq::empty(),
        AExpr::BinaryExpr { left, op, right } => seq![left, right],
        AExpr::Cast { expr, dtype, strict } => seq![expr],
        AExpr::Sort { expr, descending } => seq![expr],
        AExpr::Filter { input, by } => seq![input, by],
        AExpr::Ternary { predicate, truthy, falsy } => seq![predicate, truthy, falsy],
        AExpr::Function { input, function } => Seq::new(input@.len(), |i: int| input@[i].node),
        AExpr::Len => Seq::empty(),
    }
}

impl AExpr {
    /// The handles of the node's inputs.
    pub fn children(&self) -> (r: Vec<Node>)
        ensures
            r@ == children_of(*self),
    {
        let mut out: Vec<Node> = Vec::new();
        match self {
            AExpr::Column(_) => {},
            AExpr::Literal(_) => {},
            AExpr::BinaryExpr { left, op, right } => {
                out.push(*left);
                out.push(*right);
            },
            AExpr::Cast { expr, dtype, strict } => {
                out.push(*expr);
            },
            AExpr::Sort { expr, descending } => {
                out.push(*expr);
            },
            AExpr::Filter { input, by } => {
                out.push(*input);
                out.push(*by);
            },
            AExpr::Ternary { predicate, truthy, falsy } => {
                out.push(*predicate);
                out.push(*truthy);
                out.push(*falsy);
            },
            AExpr::Function { input, function } => {
                let mut i: usize = 0;
                while i < input.len()
                    invariant
                        i <= input.len(),
                        out@.len() == i,
                        forall|k: int| 0 <= k < i ==> out@[k] == input@[k].node,
                    decreases input.len() - i,
                {
                    out.push(input[i].node);
                    i += 1;
                }
            },
            AExpr::Len => {},
        }
        assert(out@ =~= children_of(*self));
        out
    }
}

/// Node `child` of the arena is an input of node `parent`.
pub open spec fn is_child(arena: Seq<AExpr>, parent: int, child: int) -> bool {
    &&& 0 <= parent < arena.len()
    &&& 0 <= child < arena.len()
    &&& exists|k: int|
        0 <= k < children_of(arena[parent]).len() && #[trigger] children_of(arena[parent])[k].0
            == child
}

/// `path` leads through the arena from input to input.
pub open spec fn is_path(arena: Seq<AExpr>, path: Seq<int>) -> bool {
    &&& path.len() > 0
    &&& forall|i: int| 0 <= i < path.len() ==> 0 <= #[trigger] path[i] < arena.len()
    &&& forall|i: int| 0 <= i < path.len() - 1 ==> is_child(arena, #[trigger] path[i], path[i + 1])
}

/// Node `n` is `root` itself or one of the nodes below it.
pub open spec fn reaches(arena: Seq<AExpr>, root: int, n: int) -> bool {
    exists|path: Seq<int>| is_path(arena, path) && path[0] == root && #[trigger] path.last() == n
}

/// The expression rooted at `root` reads a column.
pub open spec fn refs_column(arena: Seq<AExpr>, root: int) -> bool {
    exists|n: int| #[trigger] reaches(arena, root, n) && arena[n] is Column
}

/// How many entries of `visited` are `false`.
pub open spec fn count_unvisited(visited: Seq<bool>) -> nat
    decreases visited.len(),
{
    if visited.len() == 0 {
        0
    } else {
        count_unvisited(visited.drop_last()) + if visited.last() {
            0nat
        } else {
            1nat
        }
    }
}

proof fn lemma_visit_decreases(visited: Seq<bool>, n: int)
    requires
        0 <= n < visited.len(),
        !visited[n],
    ensures
        count_unvisited(visited.update(n, true)) + 1 == count_unvisited(visited),
    decreases visited.len(),
{
    let after = visited.update(n, true);
    if n == visited.len() - 1 {
        assert(after.drop_last() =~= visited.drop_last());
    } else {
        lemma_visit_decreases(visited.drop_last(), n);
        assert(after.drop_last() =~= visited.drop_last().update(n, true));
    }
}

proof fn lemma_reaches_self(arena: Seq<AExpr>, root: int)
    requires
        0 <= root < arena.len(),
    ensures
        reaches(arena, root, root),
{
    let path = seq![root];
    assert(is_path(arena, path));
    assert(path[0] == root && path.last() == root);
}

proof fn lemma_reaches_step(arena: Seq<AExpr>, root: int, n: int, c: int)
    requires
        reaches(arena, root, n),
        is_child(arena, n, c),
    ensures
        reaches(arena, root, c),
{
    let path = choose|path: Seq<int>|
        is_path(arena, path) && path[0] == root && #[trigger] path.last() == n;
    let longer = path.push(c);
    assert forall|i: int| 0 <= i < longer.len() - 1 implies is_child(
        arena,
        #[trigger] longer[i],
        longer[i + 1],
    ) by {
        if i < path.len() - 1 {
            assert(longer[i] == path[i]);
            assert(longer[i + 1] == path[i + 1]);
        } else {
            assert(longer[i] == n);
            assert(longer[i + 1] == c);
        }
    }
    assert forall|i: int| 0 <= i < longer.len() implies 0 <= #[trigger] longer[i] < arena.len() by {
        if i < path.len() {
            assert(longer[i] == path[i]);
        }
    }
    assert(is_path(arena, longer));
    assert(longer[0] == path[0]);
    assert(longer.last() == c);
}

/// `visited` holds with each node all of the node's inputs.
spec fn closed_under_children(arena: Seq<AExpr>, visited: Seq<bool>) -> bool {
    forall|v: int, c: int|
        0 <= v < arena.len() && visited[v] && #[trigger] is_child(arena, v, c) ==> visited[c]
}

proof fn lemma_closed_holds_path(arena: Seq<AExpr>, visited: Seq<bool>, path: Seq<int>, upto: int)
    requires
        visited.len() == arena.len(),
        closed_under_children(arena, visited),
        is_path(arena, path),
        visited[path[0]],
        0 <= upto < path.len(),
    ensures
        visited[path[upto]],
    decreases upto,
{
    if upto > 0 {
        lemma_closed_holds_path(arena, visited, path, upto - 1);
        assert(is_child(arena, path[upto - 1], path[upto - 1 + 1]));
    }
}

/// Node `c` waits on the stack.
spec fn on_stack(stack: Seq<usize>, c: int) -> bool {
    exists|k: int| 0 <= k < stack.len() && #[trigger] stack[k] == c
}

/// What holds of the search between two steps: every node seen lies below
/// the root and is no column, and every input of a node seen is seen too or
/// waits on the stack.
#[verifier::opaque]
spec fn search_inv(arena: Seq<AExpr>, root: int, visited: Seq<bool>, stack: Seq<usize>) -> bool {
    &&& visited.len() == arena.len()
    &&& 0 <= root < arena.len()
    &&& forall|k: int|
        0 <= k < stack.len() ==> (#[trigger] stack[k]) < arena.len() && reaches(
            arena,
            root,
            stack[k] as int,
        )
    &&& forall|v: int|
        0 <= v < arena.len() && #[trigger] visited[v] ==> reaches(arena, root, v) && !(
        arena[v] is Column)
    &&& forall|v: int, c: int|
        0 <= v < arena.len() && visited[v] && #[trigger] is_child(arena, v, c) ==> visited[c]
            || on_stack(stack, c)
    &&& visited[root] || on_stack(stack, root)
}

proof fn lemma_on_stack_prefix(old_stack: Seq<usize>, new_stack: Seq<usize>, c: int)
    requires
        on_stack(old_stack, c),
        old_stack.len() <= new_stack.len(),
        forall|k: int| 0 <= k < old_stack.len() ==> new_stack[k] == old_stack[k],
    ensures
        on_stack(new_stack, c),
{
    let k = choose|k: int| 0 <= k < old_stack.len() && #[trigger] old_stack[k] == c;
    assert(new_stack[k] == c);
}

proof fn lemma_on_stack_without_last(stack: Seq<usize>, c: int)
    requires
        stack.len() > 0,
        on_stack(stack, c),
        stack.last() != c,
    ensures
        on_stack(stack.drop_last(), c),
{
    let k = choose|k: int| 0 <= k < stack.len() && #[trigger] stack[k] == c;
    assert(stack.drop_last()[k] == c);
}

proof fn lemma_search_skip(arena: Seq<AExpr>, root: int, visited: Seq<bool>, stack: Seq<usize>)
    requires
        search_inv(arena, root, visited, stack),
        stack.len() > 0,
        visited[stack.last() as int],
    ensures
        search_inv(arena, root, visited, stack.drop_last()),
{
    reveal(search_inv);
    let rest = stack.drop_last();
    assert forall|k: int| 0 <= k < rest.len() implies (#[trigger] rest[k]) < arena.len() && reaches(
        arena,
        root,
        rest[k] as int,
    ) by {
        assert(rest[k] == stack[k]);
    }
    assert forall|v: int, c: int|
        0 <= v < arena.len() && visited[v] && #[trigger] is_child(arena, v, c) implies visited[c]
        || on_stack(rest, c) by {
        if !visited[c] {
            lemma_on_stack_without_last(stack, c);
        }
    }
    if !visited[root] {
        lemma_on_stack_without_last(stack, root);
    }
}

proof fn lemma_search_visit(
    arena: Seq<AExpr>,
    root: int,
    visited: Seq<bool>,
    stack: Seq<usize>,
    new_stack: Seq<usize>,
)
    requires
        search_inv(arena, root, visited, stack),
        stack.len() > 0,
        !visited[stack.last() as int],
        !(arena[stack.last() as int] is Column),
        new_stack.len() >= stack.len() - 1,
        forall|k: int| 0 <= k < stack.len() - 1 ==> new_stack[k] == stack[k],
        forall|k: int|
            stack.len() - 1 <= k < new_stack.len() ==> is_child(
                arena,
                stack.last() as int,
                #[trigger] new_stack[k] as int,
            ),
        forall|c: int| #[trigger] is_child(arena, stack.last() as int, c) ==> on_stack(new_stack, c),
    ensures
        search_inv(arena, root, visited.update(stack.last() as int, true), new_stack),
{
    reveal(search_inv);
    let node = stack.last() as int;
    let rest = stack.drop_last();
    let after = visited.update(node, true);
    assert(reaches(arena, root, node));
    assert forall|k: int| 0 <= k < new_stack.len() implies (#[trigger] new_stack[k]) < arena.len()
        && reaches(arena, root, new_stack[k] as int) by {
        if k < stack.len() - 1 {
            assert(new_stack[k] == stack[k]);
        } else {
            lemma_reaches_step(arena, root, node, new_stack[k] as int);
        }
    }
    assert forall|v: int, c: int|
        0 <= v < arena.len() && after[v] && #[trigger] is_child(arena, v, c) implies after[c]
        || on_stack(new_stack, c) by {
        if v != node {
            if !visited[c] && c != node {
                lemma_on_stack_without_last(stack, c);
                lemma_on_stack_prefix(rest, new_stack, c);
            }
        }
    }
    if root != node && !visited[root] {
        lemma_on_stack_without_last(stack, root);
        lemma_on_stack_prefix(rest, new_stack, root);
    }
}

proof fn lemma_search_done(arena: Seq<AExpr>, root: int, visited: Seq<bool>)
    requires
        search_inv(arena, root, visited, Seq::<usize>::empty()),
    ensures
        !refs_column(arena, root),
{
    reveal(search_inv);
    assert(visited[root]);
    assert(closed_under_children(arena, visited));
    assert forall|m: int| #[trigger] reaches(arena, root, m) implies !(arena[m] is Column) by {
        let path = choose|path: Seq<int>|
            is_path(arena, path) && path[0] == root && #[trigger] path.last() == m;
        lemma_closed_holds_path(arena, visited, path, path.len() - 1);
    }
}

proof fn lemma_search_start(arena: Seq<AExpr>, root: int, visited: Seq<bool>, stack: Seq<usize>)
    requires
        0 <= root < arena.len(),
        visited.len() == arena.len(),
        forall|k: int| 0 <= k < visited.len() ==> !visited[k],
        stack.len() == 1,
        stack[0] == root,
    ensures
        search_inv(arena, root, visited, stack),
{
    reveal(search_inv);
    lemma_reaches_self(arena, root);
    assert(on_stack(stack, root));
}

proof fn lemma_search_top(arena: Seq<AExpr>, root: int, visited: Seq<bool>, stack: Seq<usize>)
    requires
        search_inv(arena, root, visited, stack),
        stack.len() > 0,
    ensures
        stack.last() < arena.len(),
        visited.len() == arena.len(),
        reaches(arena, root, stack.last() as int),
{
    reveal(search_inv);
}

/// Puts on the stack the inputs of a node that are nodes of the arena.
fn push_children(stack: &mut Vec<usize>, kids: &Vec<Node>, n: usize, Ghost(arena): Ghost<Seq<AExpr>>, Ghost(node): Ghost<int>)
    requires
        n == arena.len(),
        0 <= node < n,
        kids@ == children_of(arena[node]),
    ensures
        final(stack)@.len() >= old(stack)@.len(),
        forall|k: int| 0 <= k < old(stack)@.len() ==> final(stack)@[k] == old(stack)@[k],
        forall|k: int|
            old(stack)@.len() <= k < final(stack)@.len() ==> is_child(
                arena,
                node,
                #[trigger] final(stack)@[k] as int,
            ),
        forall|c: int| #[trigger] is_child(arena, node, c) ==> on_stack(final(stack)@, c),
{
    let mut j: usize = 0;
    while j < kids.len()
        invariant
            j <= kids.len(),
            n == arena.len(),
            0 <= node < n,
            kids@ == children_of(arena[node]),
            stack@.len() >= old(stack)@.len(),
            forall|k: int| 0 <= k < old(stack)@.len() ==> stack@[k] == old(stack)@[k],
            forall|k: int|
                old(stack)@.len() <= k < stack@.len() ==> is_child(
                    arena,
                    node,
                    #[trigger] stack@[k] as int,
                ),
            forall|k: int| 0 <= k < j && kids@[k].0 < n ==> on_stack(stack@, #[trigger] kids@[k].0 as int),
        decreases kids.len() - j,
    {
        let c = kids[j].0;
        if c < n {
            let ghost prev = stack@;
            stack.push(c);
            proof {
                assert(children_of(arena[node])[j as int].0 == c);
                assert(is_child(arena, node, c as int));
                assert(stack@[prev.len() as int] == c);
                assert forall|k: int| 0 <= k < j && kids@[k].0 < n implies on_stack(
                    stack@,
                    #[trigger] kids@[k].0 as int,
                ) by {
                    lemma_on_stack_prefix(prev, stack@, kids@[k].0 as int);
                }
            }
        }
        j += 1;
    }
    proof {
        assert forall|c: int| #[trigger] is_child(arena, node, c) implies on_stack(stack@, c) by {
            let k = choose|k: int|
                0 <= k < children_of(arena[node]).len() && #[trigger] children_of(arena[node])[k].0
                    == c;
            assert(kids@[k].0 == c);
        }
    }
}

/// Whether the expression rooted at `e` reads a column anywhere. A handle
/// that names no node of the arena is read as an expression without nodes.
pub fn has_column_leaf(e: Node, expr_arena: &Arena<AExpr>) -> (r: bool)
    ensures
        r == refs_column(expr_arena@, e.0 as int),
{
    let n = expr_arena.len();
    let ghost arena = expr_arena@;
    let root = e.0;
    if root >= n {
        proof {
            assert forall|m: int| !(#[trigger] reaches(arena, root as int, m)) by {
                if reaches(arena, root as int, m) {
                    let path = choose|path: Seq<int>|
                        is_path(arena, path) && path[0] == root && #[trigger] path.last() == m;
                    assert(0 <= path[0] < arena.len());
                }
            }
        }
        return false;
    }
    let mut visited: Vec<bool> = Vec::new();
    let mut i: usize = 0;
    while i < n
        invariant
            i <= n,
            visited@.len() == i,
            forall|k: int| 0 <= k < i ==> !visited@[k],
        decreases n - i,
    {
        visited.push(false);
        i += 1;
    }
    let mut stack: Vec<usize> = Vec::new();
    stack.push(root);
    proof {
        lemma_search_start(arena, root as int, visited@, stack@);
    }
    while stack.len() > 0
        invariant
            n == arena.len(),
            arena == expr_arena@,
            root == e.0,
            search_inv(arena, root as int, visited@, stack@),
        decreases count_unvisited(visited@), stack@.len(),
    {
        let ghost stack_before = stack@;
        let ghost visited_before = visited@;
        proof {
            lemma_search_top(arena, root as int, visited@, stack@);
        }
        let node = stack.pop().unwrap();
        assert(stack@ =~= stack_before.drop_last());
        if visited[node] {
            proof {
                lemma_search_skip(arena, root as int, visited_before, stack_before);
            }
            continue ;
        }
        visited.set(node, true);
        proof {
            lemma_visit_decreases(visited_before, node as int);
        }
        let expr = expr_arena.get(Node(node));
        if let AExpr::Column(_) = expr {
            assert(node == stack_before.last());
            assert(reaches(arena, root as int, node as int));
            assert(arena[node as int] is Column);
            return true;
        }
        let kids = expr.children();
        push_children(&mut stack, &kids, n, Ghost(arena), Ghost(node as int));
        proof {
            lemma_search_visit(arena, root as int, visited_before, stack_before, stack@);
        }
    }
    proof {
        assert(stack@ =~= Seq::<usize>::empty());
        lemma_search_done(arena, root as int, visited@);
    }
    false
}

/// What is known of an expression's value before any row is read.
///
/// `Some(Some(v))`: the expression is the literal `v`. `Some(None)`: it is
/// constant, for it reads no column, but its value was not computed.
/// `None`: it reads a column.
pub fn constant_evaluate<'a>(
    e: Node,
    expr_arena: &'a Arena<AExpr>,
    _schema: &Schema,
    _depth: usize,
) -> (r: Option<Option<&'a LiteralValue>>)
    requires
        e.0 < expr_arena@.len(),
    ensures
        match expr_arena@[e.0 as int] {
            AExpr::Literal(lv) => r == Some(Some(&lv)),
            _ => r == if refs_column(expr_arena@, e.0 as int) {
                None
            } else {
                Some(None::<&LiteralValue>)
            },
        },
{
    match expr_arena.get(e) {
        AExpr::Literal(lv) => Some(Some(lv)),
        _ => {
            if !has_column_leaf(e, expr_arena) {
                Some(None)
            } else {
                None
            }
        },
    }
}

/// The name of the column that the node reads, where the node is a column.
pub fn into_column(e: Node, expr_arena: &Arena<AExpr>) -> (r: Option<&String>)
    requires
        e.0 < expr_arena@.len(),
    ensures
        match expr_arena@[e.0 as int] {
            AExpr::Column(c) => r == Some(&c),
            _ => r is None,
        },
{
    match expr_arena.get(e) {
        AExpr::Column(c) => Some(c),
        _ => None,
    }
}

/// An expression that is a literal reads no column.
pub proof fn lemma_literal_reads_no_column(arena: Seq<AExpr>, e: int)
    requires
        0 <= e < arena.len(),
        arena[e] is Literal,
    ensures
        !refs_column(arena, e),
{
    assert forall|n: int| #[trigger] reaches(arena, e, n) implies n == e by {
        let path = choose|path: Seq<int>|
            is_path(arena, path) && path[0] == e && #[trigger] path.last() == n;
        if path.len() > 1 {
            assert(is_child(arena, path[0int], path[0int + 1]));
        }
    }
}

/// An expression that is a column reads a column.
pub proof fn lemma_column_reads_column(arena: Seq<AExpr>, e: int)
    requires
        0 <= e < arena.len(),
        arena[e] is Column,
    ensures
        refs_column(arena, e),
{
    lemma_reaches_self(arena, e);
}

} // verus!
