//! Ordering the modules of a package so that a bundle of them can be
//! published at once, and the bundle's encoding.
use crate::canonical::{concat_all, each_enc_bytes, enc_seq, views_of, write_u64_as_uleb128};
use vstd::prelude::*;
use vstd::utf8::encode_utf8;
use vstd::set_lib::{lemma_int_range, set_int_range};

verus! {

/// A module's identifier: its account address and its name.
pub struct ModuleId {
    pub address: Vec<u8>,
    pub name: String,
}

impl View for ModuleId {
    type V = (Seq<u8>, Seq<char>);

    open spec fn view(&self) -> (Seq<u8>, Seq<char>) {
        (self.address@, self.name@)
    }
}

/// A compiled module: its identifier, those of the modules it depends on
/// directly, and its bytecode.
pub struct ModuleDescriptor {
    pub id: ModuleId,
    pub dependencies: Vec<ModuleId>,
    pub bytecode: Vec<u8>,
}

/// Why no publishing order exists.
#[derive(Debug)]
pub enum SortError {
    /// The modules at these indices depend on each other in a cycle: each on
    /// the next, the last being the first again.
    CyclicDependency(Vec<usize>),
}

/// Indices as integers.
pub open spec fn ints(c: Seq<usize>) -> Seq<int> {
    c.map_values(|x: usize| x as int)
}

/// No two modules share an identifier.
pub open spec fn ids_distinct(mods: Seq<ModuleDescriptor>) -> bool {
    forall|i: int, j: int|
        0 <= i < mods.len() && 0 <= j < mods.len() && i != j ==> mods[i].id@ != mods[j].id@
}

/// Module `a` depends directly on module `b`, both of the set.
pub open spec fn depends_on(mods: Seq<ModuleDescriptor>, a: int, b: int) -> bool {
    &&& 0 <= a < mods.len()
    &&& 0 <= b < mods.len()
    &&& exists|e: int|
        0 <= e < mods[a].dependencies@.len() && (#[trigger] mods[a].dependencies@[e])@
            == mods[b].id@
}

/// `ord` lists every module of the set once, each after the modules of the
/// set that it depends on.
pub open spec fn is_publish_order(mods: Seq<ModuleDescriptor>, ord: Seq<usize>) -> bool {
    &&& ord.len() == mods.len()
    &&& forall|p: int| 0 <= p < ord.len() ==> #[trigger] ord[p] < mods.len()
    &&& forall|p: int, q: int| 0 <= p < q < ord.len() ==> ord[p] != ord[q]
    &&& forall|x: int| 0 <= x < mods.len() ==> #[trigger] placed(ord, x)
    &&& forall|p: int, q: int|
        0 <= p < ord.len() && 0 <= q < ord.len() && depends_on(mods, ord[p] as int, ord[q] as int)
            ==> q < p
}

/// Index `x` occurs in `ord`.
pub open spec fn placed(ord: Seq<usize>, x: int) -> bool {
    exists|p: int| 0 <= p < ord.len() && ord[p] == x
}

/// A walk along dependencies that comes back to where it started.
pub open spec fn is_cycle(mods: Seq<ModuleDescriptor>, path: Seq<int>) -> bool {
    &&& path.len() >= 2
    &&& path[0] == path.last()
    &&& forall|i: int| 0 <= i < path.len() - 1 ==> depends_on(mods, #[trigger] path[i], path[i + 1])
}

pub open spec fn has_cycle(mods: Seq<ModuleDescriptor>) -> bool {
    exists|path: Seq<int>| is_cycle(mods, path)
}

/// The number of modules not yet reached.
spec fn count_unvisited(st: Seq<u8>) -> nat
    decreases st.len(),
{
    if st.len() == 0 {
        0
    } else {
        count_unvisited(st.drop_last()) + if st.last() == 0 {
            1nat
        } else {
            0nat
        }
    }
}

proof fn lemma_count_unvisited(a: Seq<u8>, b: Seq<u8>, w: int)
    requires
        a.len() == b.len(),
        forall|i: int| 0 <= i < a.len() && b[i] == 0 ==> a[i] == 0,
    ensures
        count_unvisited(b) <= count_unvisited(a),
        0 <= w < a.len() && a[w] == 0 && b[w] != 0 ==> count_unvisited(b) < count_unvisited(a),
    decreases a.len(),
{
    if a.len() > 0 {
        let n = a.len() - 1;
        lemma_count_unvisited(a.drop_last(), b.drop_last(), if w < n {
            w
        } else {
            -1
        });
    }
}

/// State of the walk: 0 not reached, 1 on the stack, 2 placed in `ord`.
#[verifier::opaque]
spec fn walk_inv(mods: Seq<ModuleDescriptor>, st: Seq<u8>, ord: Seq<usize>) -> bool {
    &&& st.len() == mods.len()
    &&& forall|x: int| 0 <= x < st.len() ==> #[trigger] st[x] <= 2
    &&& forall|p: int| 0 <= p < ord.len() ==> #[trigger] ord[p] < mods.len() && st[ord[p] as int] == 2
    &&& forall|p: int, q: int| 0 <= p < q < ord.len() ==> ord[p] != ord[q]
    &&& forall|x: int| 0 <= x < st.len() && #[trigger] st[x] == 2 ==> placed(ord, x)
    &&& forall|p: int, q: int|
        0 <= p < ord.len() && 0 <= q < ord.len() && depends_on(mods, ord[p] as int, ord[q] as int)
            ==> q < p
    &&& forall|x: int, y: int|
        0 <= x < st.len() && st[x] == 2 && #[trigger] depends_on(mods, x, y) ==> st[y] == 2
}

/// The modules on the stack are those marked 1, each depending on the next.
spec fn stack_inv(mods: Seq<ModuleDescriptor>, st: Seq<u8>, stack: Seq<int>) -> bool {
    &&& st.len() == mods.len()
    &&& forall|x: int| 0 <= x < st.len() ==> #[trigger] st[x] <= 2
    &&& forall|x: int| 0 <= x < st.len() ==> (#[trigger] st[x] == 1 <==> stack.contains(x))
    &&& forall|i: int| 0 <= i < stack.len() ==> 0 <= #[trigger] stack[i] < mods.len()
    &&& forall|i: int| 0 <= i < stack.len() - 1 ==> depends_on(mods, #[trigger] stack[i], stack[i + 1])
}

/// States only move forward: what is placed stays placed, the stack is kept.
spec fn walk_grows(a: Seq<u8>, b: Seq<u8>) -> bool {
    &&& a.len() == b.len()
    &&& forall|x: int| 0 <= x < a.len() && #[trigger] b[x] == 0 ==> a[x] == 0
    &&& forall|x: int| 0 <= x < a.len() ==> (#[trigger] b[x] == 1 <==> a[x] == 1)
    &&& forall|x: int| 0 <= x < a.len() && #[trigger] a[x] == 2 ==> b[x] == 2
}

/// Whether two byte strings are equal.
pub fn bytes_equal(a: &Vec<u8>, b: &Vec<u8>) -> (r: bool)
    ensures
        r == (a@ == b@),
{
    if a.len() != b.len() {
        return false;
    }
    let mut i: usize = 0;
    while i < a.len()
        invariant
            i <= a@.len(),
            a@.len() == b@.len(),
            forall|j: int| 0 <= j < i ==> a@[j] == b@[j],
        decreases a@.len() - i,
    {
        if a[i] != b[i] {
            return false;
        }
        i += 1;
    }
    assert(a@ =~= b@);
    true
}

impl ModuleId {
    /// Whether two identifiers name the same module.
    pub fn same(&self, other: &ModuleId) -> (r: bool)
        ensures
            r == (self@ == other@),
    {
        bytes_equal(&self.address, &other.address) && self.name == other.name
    }

    /// Whether this identifier comes before `other`: by address, then by
    /// name, each compared byte by byte.
    pub fn less_than(&self, other: &ModuleId) -> (r: bool)
        ensures
            r == id_less(self@, other@),
    {
        if !bytes_equal(&self.address, &other.address) {
            return bytes_less(self.address.as_slice(), other.address.as_slice());
        }
        proof {
            lemma_seq_less_irreflexive(self.address@);
        }
        bytes_less(self.name.as_str().as_bytes(), other.name.as_str().as_bytes())
    }
}

/// Lexicographic order on byte strings; a proper prefix comes first.
pub open spec fn seq_less(a: Seq<u8>, b: Seq<u8>) -> bool
    decreases a.len(),
{
    if a.len() == 0 {
        b.len() > 0
    } else if b.len() == 0 {
        false
    } else if a[0] != b[0] {
        a[0] < b[0]
    } else {
        seq_less(a.drop_first(), b.drop_first())
    }
}

/// The order in which modules are walked: by address, then by the UTF-8
/// bytes of the name.
pub open spec fn id_less(a: (Seq<u8>, Seq<char>), b: (Seq<u8>, Seq<char>)) -> bool {
    seq_less(a.0, b.0) || (a.0 == b.0 && seq_less(encode_utf8(a.1), encode_utf8(b.1)))
}

proof fn lemma_seq_less_irreflexive(a: Seq<u8>)
    ensures
        !seq_less(a, a),
    decreases a.len(),
{
    if a.len() > 0 {
        lemma_seq_less_irreflexive(a.drop_first());
    }
}

/// Whether `a` comes before `b` in lexicographic order.
pub fn bytes_less(a: &[u8], b: &[u8]) -> (r: bool)
    ensures
        r == seq_less(a@, b@),
{
    let mut i: usize = 0;
    assert(a@.subrange(0, a@.len() as int) == a@);
    assert(b@.subrange(0, b@.len() as int) == b@);
    while i < a.len() && i < b.len()
        invariant
            i <= a@.len(),
            i <= b@.len(),
            seq_less(a@, b@) == seq_less(a@.subrange(i as int, a@.len() as int), b@.subrange(i as int, b@.len() as int)),
        decreases a@.len() - i,
    {
        let ghost sa = a@.subrange(i as int, a@.len() as int);
        let ghost sb = b@.subrange(i as int, b@.len() as int);
        if a[i] != b[i] {
            assert(sa[0] == a@[i as int] && sb[0] == b@[i as int]);
            return a[i] < b[i];
        }
        assert(sa.drop_first() == a@.subrange(i + 1, a@.len() as int));
        assert(sb.drop_first() == b@.subrange(i + 1, b@.len() as int));
        i += 1;
    }
    i < b.len()
}

/// The module of the set with identifier `id`.
fn index_of(mods: &Vec<ModuleDescriptor>, id: &ModuleId) -> (r: Option<usize>)
    ensures
        match r {
            Some(j) => j < mods@.len() && mods@[j as int].id@ == id@,
            None => forall|j: int| 0 <= j < mods@.len() ==> mods@[j].id@ != id@,
        },
{
    let mut j: usize = 0;
    while j < mods.len()
        invariant
            j <= mods@.len(),
            forall|k: int| 0 <= k < j ==> mods@[k].id@ != id@,
        decreases mods@.len() - j,
    {
        if mods[j].id.same(id) {
            return Some(j);
        }
        j += 1;
    }
    None
}

/// Places module `k` and, first, the modules of the set it depends on that
/// are not placed yet; `false` when it meets a module on the stack.
#[verifier::rlimit(100)]
fn visit(
    mods: &Vec<ModuleDescriptor>,
    k: usize,
    state: &mut Vec<u8>,
    order: &mut Vec<usize>,
    trail: &mut Vec<usize>,
    Ghost(stack): Ghost<Seq<int>>,
) -> (r: Result<(), Vec<usize>>)
    requires
        ints(old(trail)@) == stack,
        ids_distinct(mods@),
        k < mods@.len(),
        old(state)@[k as int] == 0,
        walk_inv(mods@, old(state)@, old(order)@),
        stack_inv(mods@, old(state)@, stack),
        stack.len() > 0 ==> depends_on(mods@, stack.last(), k as int),
    ensures
        match r {
            Ok(()) => {
                &&& walk_inv(mods@, final(state)@, final(order)@)
                &&& stack_inv(mods@, final(state)@, stack)
                &&& final(state)@[k as int] == 2
                &&& walk_grows(old(state)@, final(state)@)
                &&& final(trail)@ == old(trail)@
            },
            Err(c) => is_cycle(mods@, ints(c@)),
        },
    decreases count_unvisited(old(state)@),
{
    let ghost entry = state@;
    state.set(k, 1);
    let ghost stack2 = stack.push(k as int);
    let ghost trail0 = trail@;
    trail.push(k);
    assert(ints(trail@) =~= stack2);
    proof {
        reveal(walk_inv);
        lemma_count_unvisited(entry, state@, k as int);
        assert forall|x: int| 0 <= x < state@.len() implies (#[trigger] state@[x] == 1 <==> stack2.contains(x)) by {
            if x == k {
                assert(stack2[stack.len() as int] == x);
            } else if stack.contains(x) {
                let i = choose|i: int| 0 <= i < stack.len() && stack[i] == x;
                assert(stack2[i] == x);
            } else if stack2.contains(x) {
                let i = choose|i: int| 0 <= i < stack2.len() && stack2[i] == x;
                assert(stack[i] == x);
            }
        }
        assert forall|i: int| 0 <= i < stack2.len() - 1 implies depends_on(mods@, #[trigger] stack2[i], stack2[i + 1]) by {
            if i < stack.len() - 1 {
                assert(stack2[i] == stack[i] && stack2[i + 1] == stack[i + 1]);
            } else {
                assert(stack2[i] == stack.last());
            }
        }
        assert forall|x: int, y: int|
            0 <= x < state@.len() && state@[x] == 2 && #[trigger] depends_on(mods@, x, y) implies state@[y] == 2 by {
            assert(entry[x] == 2);
        }
        assert forall|x: int| 0 <= x < state@.len() && #[trigger] state@[x] == 2 implies placed(order@, x) by {
            assert(entry[x] == 2);
        }
    }
    let deps = &mods[k].dependencies;
    let mut di: usize = 0;
    while di < deps.len()
        invariant
            ids_distinct(mods@),
            k < mods@.len(),
            deps@ == mods@[k as int].dependencies@,
            di <= deps@.len(),
            walk_inv(mods@, state@, order@),
            stack_inv(mods@, state@, stack2),
            state@[k as int] == 1,
            stack2 == stack.push(k as int),
            ints(trail@) == stack2,
            trail@ == trail0.push(k),
            walk_grows(entry.update(k as int, 1), state@),
            count_unvisited(state@) < count_unvisited(entry),
            entry == old(state)@,
            forall|e: int, y: int|
                0 <= e < di && 0 <= y < mods@.len() && #[trigger] mods@[y].id@ == (
                #[trigger] deps@[e])@ ==> state@[y] == 2,
        decreases deps@.len() - di,
    {
        match index_of(mods, &deps[di]) {
            None => {},
            Some(j) => {
                assert(depends_on(mods@, k as int, j as int));
                if state[j] == 1 {
                    let ghost p0 = choose|p: int| 0 <= p < stack2.len() && stack2[p] == j as int;
                    proof {
                        assert(stack2.contains(j as int));
                        assert(trail@[p0] == j);
                    }
                    let mut p: usize = 0;
                    let tl = trail.len();
                    while trail[p] != j
                        invariant
                            p <= p0,
                            tl == trail@.len(),
                            0 <= p0 < tl,
                            trail@[p0] == j,
                        decreases p0 - p,
                    {
                        assert(p != p0);
                        p += 1;
                    }
                    let mut cycle: Vec<usize> = Vec::new();
                    let mut q: usize = p;
                    while q < trail.len()
                        invariant
                            p <= q <= trail@.len(),
                            cycle@ == trail@.subrange(p as int, q as int),
                        decreases trail@.len() - q,
                    {
                        cycle.push(trail[q]);
                        q += 1;
                        assert(cycle@ =~= trail@.subrange(p as int, q as int));
                    }
                    cycle.push(j);
                    proof {
                        let path = stack2.subrange(p as int, stack2.len() as int).push(j as int);
                        assert(ints(cycle@) =~= path);
                        assert(stack2[p as int] == j as int);
                        assert forall|i: int| 0 <= i < path.len() - 1 implies depends_on(mods@, #[trigger] path[i], path[i + 1]) by {
                            if i < path.len() - 2 {
                                assert(path[i] == stack2[p + i] && path[i + 1] == stack2[p + i + 1]);
                            } else {
                                assert(path[i] == k);
                            }
                        }
                        assert(is_cycle(mods@, path));
                    }
                    return Err(cycle);
                }
                if state[j] == 0 {
                    let ghost before = state@;
                    match visit(mods, j, state, order, trail, Ghost(stack2)) {
                        Ok(()) => {},
                        Err(c) => {
                            return Err(c);
                        },
                    }
                    proof {
                        lemma_count_unvisited(before, state@, -1);
                    }
                }
                proof {
                    assert forall|y: int|
                        0 <= y < mods@.len() && mods@[y].id@ == deps@[di as int]@ implies state@[y] == 2 by {
                        if y != j {
                            assert(mods@[y].id@ != mods@[j as int].id@);
                        }
                    }
                }
            },
        }
        di += 1;
    }
    let ghost before_push = state@;
    let ghost old_order = order@;
    let pos = order.len();
    state.set(k, 2);
    order.push(k);
    trail.pop();
    assert(trail@ =~= trail0);
    proof {
        reveal(walk_inv);
        assert(order@[pos as int] == k);
        assert forall|y: int| #[trigger] depends_on(mods@, k as int, y) implies before_push[y] == 2 by {
            let e = choose|e: int|
                0 <= e < mods@[k as int].dependencies@.len() && (
                #[trigger] mods@[k as int].dependencies@[e])@ == mods@[y].id@;
            assert(deps@[e] == mods@[k as int].dependencies@[e]);
        }
        assert forall|x: int| 0 <= x < state@.len() implies (#[trigger] state@[x] == 1 <==> stack.contains(x)) by {
            if x != k && stack.contains(x) {
                let i = choose|i: int| 0 <= i < stack.len() && stack[i] == x;
                assert(stack2[i] == x);
            }
            if x != k && stack2.contains(x) {
                let i = choose|i: int| 0 <= i < stack2.len() && stack2[i] == x;
                assert(i < stack.len());
                assert(stack[i] == x);
            }
            if x == k && stack.contains(x) {
                let i = choose|i: int| 0 <= i < stack.len() && stack[i] == x;
                assert(stack2[i] == x);
            }
        }
        assert forall|p: int, q: int|
            0 <= p < order@.len() && 0 <= q < order@.len() && depends_on(mods@, order@[p] as int, order@[q] as int)
                implies q < p by {
            if q == pos as int {
                if p != pos as int {
                    assert(before_push[order@[p] as int] == 2);
                }
            }
        }
        assert forall|x: int| 0 <= x < state@.len() && #[trigger] state@[x] == 2 implies placed(order@, x) by {
            if x == k {
                assert(order@[pos as int] == x);
            } else {
                assert(before_push[x] == 2);
                assert(placed(old_order, x));
                let p = choose|p: int| 0 <= p < old_order.len() && old_order[p] == x;
                assert(order@[p] == x);
            }
        }
        assert forall|p: int, q: int| 0 <= p < q < order@.len() implies order@[p] != order@[q] by {
            if q == pos as int {
                assert(before_push[order@[p] as int] == 2);
            }
        }
    }
    Ok(())
}

/// The order in which to publish the modules: each after the modules of the
/// set that it depends on, those outside the set being taken as present.
/// The walk starts from the modules in the order of their identifiers.
pub fn publish_order(mods: &Vec<ModuleDescriptor>) -> (r: Result<Vec<usize>, SortError>)
    requires
        ids_distinct(mods@),
    ensures
        match r {
            Ok(ord) => is_publish_order(mods@, ord@),
            Err(SortError::CyclicDependency(c)) => is_cycle(mods@, ints(c@)),
        },
        r is Ok <==> !has_cycle(mods@),
{
    let n = mods.len();
    let mut state: Vec<u8> = Vec::new();
    let mut i: usize = 0;
    while i < n
        invariant
            i <= n,
            n == mods@.len(),
            state@.len() == i,
            forall|x: int| 0 <= x < i ==> #[trigger] state@[x] == 0,
        decreases n - i,
    {
        state.push(0);
        i += 1;
    }
    let mut order: Vec<usize> = Vec::new();
    proof {
        reveal(walk_inv);
    }
    loop
        invariant
            ids_distinct(mods@),
            n == mods@.len(),
            walk_inv(mods@, state@, order@),
            stack_inv(mods@, state@, Seq::<int>::empty()),
            forall|x: int| 0 <= x < n ==> #[trigger] state@[x] != 1,
        decreases count_unvisited(state@),
    {
        let mut next: Option<usize> = None;
        let mut x: usize = 0;
        while x < n
            invariant
                x <= n,
                n == mods@.len(),
                state@.len() == n,
                match next {
                    Some(m) => m < n && state@[m as int] == 0,
                    None => forall|y: int| 0 <= y < x ==> #[trigger] state@[y] != 0,
                },
            decreases n - x,
        {
            if state[x] == 0 {
                next = match next {
                    None => Some(x),
                    Some(m) => if mods[x].id.less_than(&mods[m].id) {
                        Some(x)
                    } else {
                        Some(m)
                    },
                };
            }
            x += 1;
        }
        match next {
            None => {
                proof {
                    reveal(walk_inv);
                    assert forall|y: int| 0 <= y < mods@.len() implies placed(order@, y) by {
                        assert(state@[y] != 0 && state@[y] != 1 && state@[y] <= 2);
                    }
                    assert forall|p: int| 0 <= p < order@.len() implies #[trigger] order@[p] < mods@.len() by {}
                    assert(order@.len() == mods@.len()) by {
                        lemma_perm_len(order@, n as int);
                    }
                }
                proof {
                    lemma_order_excludes_cycle(mods@, order@);
                }
                return Ok(order);
            },
            Some(m) => {
                let ghost before = state@;
                let mut trail: Vec<usize> = Vec::new();
                assert(ints(trail@) =~= Seq::<int>::empty());
                match visit(mods, m, &mut state, &mut order, &mut trail, Ghost(Seq::<int>::empty())) {
                    Ok(()) => {},
                    Err(c) => {
                        assert(has_cycle(mods@));
                        return Err(SortError::CyclicDependency(c));
                    },
                }
                proof {
                    lemma_count_unvisited(before, state@, m as int);
                }
            },
        }
    }
}

/// A list of distinct indices below `n` that holds each of them has length `n`.
proof fn lemma_perm_len(ord: Seq<usize>, n: int)
    requires
        0 <= n,
        forall|p: int| 0 <= p < ord.len() ==> #[trigger] ord[p] < n,
        forall|p: int, q: int| 0 <= p < q < ord.len() ==> ord[p] != ord[q],
        forall|x: int| 0 <= x < n ==> #[trigger] placed(ord, x),
    ensures
        ord.len() == n,
{
    let ints = ord.map_values(|v: usize| v as int);
    assert forall|p: int, q: int| 0 <= p < ints.len() && 0 <= q < ints.len() && p != q implies ints[p]
        != ints[q] by {
        if p < q {
            assert(ord[p] != ord[q]);
        } else {
            assert(ord[q] != ord[p]);
        }
    }
    assert(ints.no_duplicates());
    ints.unique_seq_to_set();
    assert(ints.to_set() =~= set_int_range(0, n)) by {
        assert forall|x: int| ints.to_set().contains(x) <==> 0 <= x < n by {
            if 0 <= x < n {
                assert(placed(ord, x));
                let p = choose|p: int| 0 <= p < ord.len() && ord[p] == x;
                assert(ints[p] == x);
            }
            if ints.to_set().contains(x) {
                let p = choose|p: int| 0 <= p < ints.len() && ints[p] == x;
                assert(ord[p] < n);
            }
        }
    }
    lemma_int_range(0, n);
}

/// Along a walk, each module stands earlier in a publish order than the one
/// before it.
proof fn lemma_walk_descends(mods: Seq<ModuleDescriptor>, ord: Seq<usize>, path: Seq<int>, i: int)
    requires
        is_publish_order(mods, ord),
        1 <= i < path.len(),
        forall|j: int| 0 <= j < path.len() - 1 ==> depends_on(mods, #[trigger] path[j], path[j + 1]),
    ensures
        position(ord, path[i]) < position(ord, path[0]),
        ord[position(ord, path[i])] == path[i],
    decreases i,
{
    let a = path[i - 1];
    let b = path[i];
    assert(depends_on(mods, a, b));
    assert(placed(ord, a));
    assert(placed(ord, b));
    let pa = position(ord, a);
    let pb = position(ord, b);
    assert(depends_on(mods, ord[pa] as int, ord[pb] as int));
    if i > 1 {
        lemma_walk_descends(mods, ord, path, i - 1);
    }
}

/// Where `x` stands in `ord`.
spec fn position(ord: Seq<usize>, x: int) -> int {
    choose|p: int| 0 <= p < ord.len() && ord[p] == x
}

/// Modules that have a publish order do not depend on each other in a
/// cycle.
pub proof fn lemma_order_excludes_cycle(mods: Seq<ModuleDescriptor>, ord: Seq<usize>)
    requires
        is_publish_order(mods, ord),
    ensures
        !has_cycle(mods),
{
    if has_cycle(mods) {
        let path = choose|path: Seq<int>| is_cycle(mods, path);
        lemma_walk_descends(mods, ord, path, path.len() - 1);
    }
}

/// Whether no two of the modules share an identifier.
pub fn ids_are_distinct(mods: &Vec<ModuleDescriptor>) -> (r: bool)
    ensures
        r == ids_distinct(mods@),
{
    let n = mods.len();
    let mut i: usize = 0;
    while i < n
        invariant
            i <= n,
            n == mods@.len(),
            forall|a: int, b: int| 0 <= a < i && 0 <= b < n && a != b ==> mods@[a].id@ != mods@[b].id@,
        decreases n - i,
    {
        let mut j: usize = 0;
        while j < n
            invariant
                i < n,
                j <= n,
                n == mods@.len(),
                forall|b: int| 0 <= b < j && b != i ==> mods@[i as int].id@ != mods@[b].id@,
            decreases n - j,
        {
            if j != i && mods[i].id.same(&mods[j].id) {
                return false;
            }
            j += 1;
        }
        i += 1;
    }
    true
}

/// A bundle's encoding: the number of modules, then each module's bytecode
/// with its length in front.
pub fn encode_bundle(codes: &Vec<Vec<u8>>) -> (r: Vec<u8>)
    ensures
        r@ == enc_seq(each_enc_bytes(views_of(codes@))),
{
    let mut out: Vec<u8> = Vec::new();
    write_u64_as_uleb128(&mut out, codes.len());
    let ghost head = out@;
    let mut i: usize = 0;
    while i < codes.len()
        invariant
            i <= codes@.len(),
            head == crate::canonical::uleb128(codes@.len() as nat),
            out@ == head + concat_all(each_enc_bytes(views_of(codes@)).subrange(0, i as int)),
        decreases codes@.len() - i,
    {
        let ghost parts = each_enc_bytes(views_of(codes@));
        assert(parts.subrange(0, i + 1).drop_last() == parts.subrange(0, i as int));
        write_u64_as_uleb128(&mut out, codes[i].len());
        out.extend_from_slice(codes[i].as_slice());
        i += 1;
        assert(out@ =~= head + concat_all(parts.subrange(0, i as int)));
    }
    assert(each_enc_bytes(views_of(codes@)).subrange(0, codes@.len() as int) == each_enc_bytes(views_of(codes@)));
    out
}

/// The bytecode of the modules in an order in which they can be published.
pub fn sort_modules(mods: &Vec<ModuleDescriptor>) -> (r: Result<Vec<Vec<u8>>, SortError>)
    requires
        ids_distinct(mods@),
    ensures
        match r {
            Ok(codes) => exists|ord: Seq<usize>|
                is_publish_order(mods@, ord) && codes@.len() == ord.len() && forall|p: int|
                    0 <= p < ord.len() ==> (#[trigger] codes@[p])@ == mods@[ord[p] as int].bytecode@,
            Err(SortError::CyclicDependency(c)) => is_cycle(mods@, ints(c@)),
        },
        r is Ok <==> !has_cycle(mods@),
{
    let ord = match publish_order(mods) {
        Ok(o) => o,
        Err(e) => {
            return Err(e);
        },
    };
    let mut codes: Vec<Vec<u8>> = Vec::new();
    let mut p: usize = 0;
    while p < ord.len()
        invariant
            p <= ord@.len(),
            is_publish_order(mods@, ord@),
            codes@.len() == p,
            forall|q: int| 0 <= q < p ==> (#[trigger] codes@[q])@ == mods@[ord@[q] as int].bytecode@,
        decreases ord@.len() - p,
    {
        let b = mods[ord[p]].bytecode.clone();
        assert(b@ =~= mods@[ord@[p as int] as int].bytecode@);
        codes.push(b);
        p += 1;
    }
    Ok(codes)
}

} // verus!
