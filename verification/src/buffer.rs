//! Vertex attribute interleaving: the compute half of GPU buffer creation.
//! The buffer holds, for each vertex in turn, three position components,
//! four colour components and three normal components: ten values a row.
use vstd::prelude::*;

verus! {

/// The interleaving of the first `k` vertices.
pub open spec fn inter_prefix<T>(v: Seq<T>, c: Seq<T>, n: Seq<T>, k: int) -> Seq<T>
    decreases k,
{
    if k <= 0 {
        Seq::empty()
    } else {
        inter_prefix(v, c, n, k - 1) + v.subrange(3 * (k - 1), 3 * (k - 1) + 3) + c.subrange(
            4 * (k - 1),
            4 * (k - 1) + 4,
        ) + n.subrange(3 * (k - 1), 3 * (k - 1) + 3)
    }
}

/// The interleaving of `k` vertices holds ten values for each.
pub proof fn lemma_inter_len<T>(v: Seq<T>, c: Seq<T>, n: Seq<T>, k: int)
    requires
        0 <= k,
        3 * k <= v.len(),
        4 * k <= c.len(),
        3 * k <= n.len(),
    ensures
        inter_prefix(v, c, n, k).len() == 10 * k,
    decreases k,
{
    if k > 0 {
        lemma_inter_len(v, c, n, k - 1);
    }
}

/// Interleave per-vertex positions (stride three), colours (stride four) and
/// normals (stride three) into one buffer with ten values per vertex.
pub fn interleave_attributes<T: Copy>(vertices: &Vec<T>, colours: &Vec<T>, normals: &Vec<T>) -> (r:
    Vec<T>)
    requires
        vertices@.len() % 3 == 0,
        colours@.len() == vertices@.len() / 3 * 4,
        normals@.len() == vertices@.len(),
        vertices@.len() / 3 * 10 <= usize::MAX,
    ensures
        r@ == inter_prefix(vertices@, colours@, normals@, (vertices@.len() / 3) as int),
        r@.len() == vertices@.len() / 3 * 10,
{
    let count: usize = vertices.len() / 3;
    proof {
        vstd::arithmetic::div_mod::lemma_fundamental_div_mod(vertices@.len() as int, 3);
    }
    let mut r: Vec<T> = Vec::new();
    let mut i: usize = 0;
    while i < count
        invariant
            i <= count,
            vertices@.len() == 3 * count,
            colours@.len() == 4 * count,
            normals@.len() == 3 * count,
            10 * count <= usize::MAX,
            r@ == inter_prefix(vertices@, colours@, normals@, i as int),
            r@.len() == 10 * i,
        decreases count - i,
    {
        proof {
            lemma_inter_len(vertices@, colours@, normals@, i as int + 1);
        }
        r.push(vertices[3 * i]);
        r.push(vertices[3 * i + 1]);
        r.push(vertices[3 * i + 2]);
        r.push(colours[4 * i]);
        r.push(colours[4 * i + 1]);
        r.push(colours[4 * i + 2]);
        r.push(colours[4 * i + 3]);
        r.push(normals[3 * i]);
        r.push(normals[3 * i + 1]);
        r.push(normals[3 * i + 2]);
        proof {
            assert(r@ =~= inter_prefix(vertices@, colours@, normals@, i as int + 1));
        }
        i = i + 1;
    }
    proof {
        assert(count == vertices@.len() / 3);
    }
    r
}

} // verus!
