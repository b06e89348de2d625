//! The names of a model's tensors: which layer, which expert and which kind a name speaks of.
use crate::numerals::{decimal, decimal_text, lemma_decimal, number_up_to, parse_usize};
use crate::text::{
    before, char_views, chars_of, contains_text, find_chars, find_from, has_prefix, has_text,
    lemma_char_from_is, lemma_find_from, lemma_prefix_parts, lemma_starts_with, occurs_at, part,
    part_before, same_chars, split_chars, split_on, starts_with,
};
use vstd::prelude::*;
use vstd::string::*;

verus! {

/// What the names of the tensors of block `layer` begin with.
pub open spec fn block_prefix(layer: nat) -> Seq<char> {
    "blocks."@ + decimal(layer) + "."@
}

/// What the names of the tensors of an expert of a single-stream block begin with.
pub open spec fn expert_prefix(layer: nat, expert: nat) -> Seq<char> {
    block_prefix(layer) + "moe.experts."@ + decimal(expert) + "."@
}

/// The layer that a name speaks of: `blocks.` and a number up to the next dot.
pub open spec fn layer_in(name: Seq<char>) -> Option<nat> {
    if starts_with(name, "blocks."@) {
        number_up_to(before(name.skip("blocks."@.len() as int), '.'), usize::MAX as int)
    } else {
        None
    }
}

/// The block, among the first `num_layers`, that a name lies under.
pub open spec fn block_of(name: Seq<char>, num_layers: nat) -> Option<nat> {
    match layer_in(name) {
        Some(l) => if l < num_layers && starts_with(name, block_prefix(l)) {
            Some(l)
        } else {
            None
        },
        None => None,
    }
}

/// The expert that a name speaks of: what follows the first `experts.`, up to the next dot or the
/// next `experts.`, read as a number.
pub open spec fn expert_in(name: Seq<char>) -> Option<nat> {
    match find_from(name, "experts."@, 0) {
        Some(i) => {
            let rest = name.skip(i + "experts."@.len());
            let piece = match find_from(rest, "experts."@, 0) {
                Some(j) => rest.subrange(0, j),
                None => rest,
            };
            number_up_to(before(piece, '.'), usize::MAX as int)
        },
        None => None,
    }
}

/// `n`, where it is below `bound`.
pub open spec fn below(n: Option<nat>, bound: nat) -> Option<nat> {
    match n {
        Some(i) => if i < bound {
            Some(i)
        } else {
            None
        },
        None => None,
    }
}

/// The pieces of the name of a weight of an expert's two matrices, in a single-stream block.
pub open spec fn is_single_expert_weight(parts: Seq<Seq<char>>) -> bool {
    &&& parts.len() >= 7
    &&& parts[0] == "blocks"@
    &&& parts[2] == "moe"@
    &&& parts[3] == "experts"@
    &&& (parts[5] == "c_fc"@ || parts[5] == "c_proj"@)
    &&& parts.last() == "weight"@
}

/// The pieces of the name of a weight of an expert's two matrices, in one stream of two.
pub open spec fn is_stream_expert_weight(parts: Seq<Seq<char>>) -> bool {
    &&& parts.len() >= 8
    &&& parts[0] == "blocks"@
    &&& (parts[2] == "stream_a"@ || parts[2] == "stream_b"@)
    &&& parts[3] == "moe"@
    &&& parts[4] == "experts"@
    &&& (parts[6] == "c_fc"@ || parts[6] == "c_proj"@)
    &&& parts.last() == "weight"@
}

/// The layer and the expert whose matrix the named tensor is, where both numbers can be read.
pub open spec fn expert_weight_in(name: Seq<char>) -> Option<(nat, nat)> {
    let parts = split_on(name, '.');
    let at: int = if is_single_expert_weight(parts) {
        4
    } else if is_stream_expert_weight(parts) {
        5
    } else {
        0
    };
    if at == 0 {
        None
    } else {
        match (
            number_up_to(parts[1], usize::MAX as int),
            number_up_to(parts[at], usize::MAX as int),
        ) {
            (Some(l), Some(e)) => Some((l, e)),
            _ => None,
        }
    }
}

/// Where the gradient of the named tensor counts: its block, then one place for the embedding and
/// one for the output head.
pub open spec fn grad_slot_in(name: Seq<char>, num_layers: nat) -> Option<nat> {
    if starts_with(name, "blocks."@) {
        below(layer_in(name), num_layers)
    } else if starts_with(name, "embed."@) {
        Some(num_layers)
    } else if starts_with(name, "lm_head."@) {
        Some(num_layers + 1)
    } else {
        None
    }
}

/// A decimal number and a dot: what stands before the first dot is the number.
proof fn lemma_before_decimal(n: nat, rest: Seq<char>)
    ensures
        before(decimal(n) + "."@ + rest, '.') == decimal(n),
{
    reveal_strlit(".");
    lemma_decimal(n);
    let s = decimal(n) + "."@ + rest;
    let k = decimal(n).len() as int;
    assert forall|j: int| 0 <= j < k implies s[j] != '.' by {
        assert(s[j] == decimal(n)[j]);
    }
    lemma_char_from_is(s, '.', 0, k);
    assert(s.subrange(0, k) =~= decimal(n));
}

/// A name under block `layer` speaks of that layer.
pub proof fn lemma_block_prefix_layer(layer: nat, rest: Seq<char>)
    requires
        layer <= usize::MAX,
    ensures
        layer_in(block_prefix(layer) + rest) == Some(layer),
{
    let name = block_prefix(layer) + rest;
    let tail = decimal(layer) + "."@ + rest;
    assert(name =~= "blocks."@ + tail);
    lemma_starts_with(tail, "blocks."@);
    lemma_before_decimal(layer, rest);
    lemma_decimal(layer);
}

/// A name lies under one block at most.
pub proof fn lemma_block_prefix_unique(name: Seq<char>, a: nat, b: nat)
    requires
        starts_with(name, block_prefix(a)),
        starts_with(name, block_prefix(b)),
    ensures
        a == b,
{
    assert(block_prefix(a) =~= "blocks."@ + (decimal(a) + "."@));
    assert(block_prefix(b) =~= "blocks."@ + (decimal(b) + "."@));
    lemma_prefix_parts(name, "blocks."@, decimal(a) + "."@);
    lemma_prefix_parts(name, "blocks."@, decimal(b) + "."@);
    lemma_number_unique(name.skip("blocks."@.len() as int), a, b);
}

/// A name lies under one expert of one block at most.
pub proof fn lemma_expert_prefix_unique(name: Seq<char>, l: nat, e: nat, m: nat, f: nat)
    requires
        starts_with(name, expert_prefix(l, e)),
        starts_with(name, expert_prefix(m, f)),
    ensures
        l == m,
        e == f,
{
    lemma_expert_prefix_parts(name, l, e);
    lemma_expert_prefix_parts(name, m, f);
    lemma_block_prefix_unique(name, l, m);
    let rest = name.skip(block_prefix(l).len() as int).skip("moe.experts."@.len() as int);
    lemma_number_unique(rest, e, f);
}

/// A text begins with one decimal number and a dot at most.
proof fn lemma_number_unique(s: Seq<char>, a: nat, b: nat)
    requires
        starts_with(s, decimal(a) + "."@),
        starts_with(s, decimal(b) + "."@),
    ensures
        a == b,
{
    lemma_starts_with(s, decimal(a) + "."@);
    lemma_starts_with(s, decimal(b) + "."@);
    lemma_before_decimal(a, s.skip((decimal(a) + "."@).len() as int));
    lemma_before_decimal(b, s.skip((decimal(b) + "."@).len() as int));
    crate::numerals::lemma_decimal_injective(a, b);
}

/// The parts of an expert's prefix, one after the other.
pub proof fn lemma_expert_prefix_parts(name: Seq<char>, layer: nat, expert: nat)
    requires
        starts_with(name, expert_prefix(layer, expert)),
    ensures
        starts_with(name, block_prefix(layer)),
        starts_with(name.skip(block_prefix(layer).len() as int), "moe.experts."@),
        starts_with(
            name.skip(block_prefix(layer).len() as int).skip("moe.experts."@.len() as int),
            decimal(expert) + "."@,
        ),
{
    let tail = decimal(expert) + "."@;
    assert(expert_prefix(layer, expert) =~= block_prefix(layer) + ("moe.experts."@ + tail));
    lemma_prefix_parts(name, block_prefix(layer), "moe.experts."@ + tail);
    lemma_prefix_parts(name.skip(block_prefix(layer).len() as int), "moe.experts."@, tail);
}

/// A name lies under block `l` of a model exactly where it begins with that block's prefix.
pub proof fn lemma_block_of(name: Seq<char>, num_layers: nat, l: nat)
    requires
        num_layers <= usize::MAX,
    ensures
        block_of(name, num_layers) == Some(l) <==> l < num_layers && starts_with(
            name,
            block_prefix(l),
        ),
{
    if l < num_layers && starts_with(name, block_prefix(l)) {
        lemma_starts_with(name, block_prefix(l));
        lemma_block_prefix_layer(l, name.skip(block_prefix(l).len() as int));
    }
}

/// Writes what the names of block `layer` begin with.
pub fn block_prefix_text(layer: usize) -> (r: String)
    ensures
        r@ == block_prefix(layer as nat),
{
    let mut out: String = "blocks.".to_owned();
    out.append(decimal_text(layer as u64).as_str());
    out.append(".");
    out
}

/// Writes what the names of an expert of block `layer` begin with.
pub fn expert_prefix_text(layer: usize, expert: usize) -> (r: String)
    ensures
        r@ == expert_prefix(layer as nat, expert as nat),
{
    let mut out: String = block_prefix_text(layer);
    out.append("moe.experts.");
    out.append(decimal_text(expert as u64).as_str());
    out.append(".");
    out
}

/// The layer that `name` speaks of.
pub fn layer_index(name: &str) -> (r: Option<usize>)
    ensures
        r matches Some(l) ==> layer_in(name@) == Some(l as nat),
        r is None ==> layer_in(name@) is None,
{
    if !has_prefix(name, "blocks.") {
        return None;
    }
    let s = chars_of(name);
    let n: usize = "blocks.".unicode_len();
    let rest = part(&s, n, s.len());
    assert(rest@ =~= name@.skip(n as int));
    parse_usize(&part_before(&rest, '.'))
}

/// The block, among the first `num_layers`, that `name` lies under.
pub fn block_index(name: &str, num_layers: usize) -> (r: Option<usize>)
    ensures
        r matches Some(l) ==> block_of(name@, num_layers as nat) == Some(l as nat),
        r is None ==> block_of(name@, num_layers as nat) is None,
{
    match layer_index(name) {
        Some(l) => if l < num_layers && has_prefix(name, block_prefix_text(l).as_str()) {
            Some(l)
        } else {
            None
        },
        None => None,
    }
}

/// The expert that `name` speaks of.
pub fn expert_index(name: &str) -> (r: Option<usize>)
    ensures
        r matches Some(e) ==> expert_in(name@) == Some(e as nat),
        r is None ==> expert_in(name@) is None,
{
    let s = chars_of(name);
    let p = chars_of("experts.");
    proof {
        lemma_find_from(s@, p@, 0);
    }
    match find_chars(&s, &p, 0) {
        Some(i) => {
            assert(occurs_at(s@, p@, i as int));
            let end: usize = s.len();
            let rest = part(&s, i + p.len(), end);
            assert(rest@ =~= name@.skip(i + p@.len()));
            proof {
                lemma_find_from(rest@, p@, 0);
            }
            let piece: Vec<char> = match find_chars(&rest, &p, 0) {
                Some(j) => part(&rest, 0, j),
                None => rest,
            };
            parse_usize(&part_before(&piece, '.'))
        },
        None => None,
    }
}

/// Where the gradient of `name` counts.
pub fn grad_slot(name: &str, num_layers: usize) -> (r: Option<usize>)
    requires
        num_layers < usize::MAX,
    ensures
        r matches Some(i) ==> grad_slot_in(name@, num_layers as nat) == Some(i as nat),
        r is None ==> grad_slot_in(name@, num_layers as nat) is None,
{
    if has_prefix(name, "blocks.") {
        match layer_index(name) {
            Some(l) => if l < num_layers {
                Some(l)
            } else {
                None
            },
            None => None,
        }
    } else if has_prefix(name, "embed.") {
        Some(num_layers)
    } else if has_prefix(name, "lm_head.") {
        Some(num_layers + 1)
    } else {
        None
    }
}

/// The layer that a block's tensor `name` counts toward, where it is below `num_layers`.
pub fn layer_slot(name: &str, num_layers: usize) -> (r: Option<usize>)
    ensures
        r matches Some(l) ==> below(layer_in(name@), num_layers as nat) == Some(l as nat),
        r is None ==> below(layer_in(name@), num_layers as nat) is None,
{
    match layer_index(name) {
        Some(l) => if l < num_layers {
            Some(l)
        } else {
            None
        },
        None => None,
    }
}

/// The matrix of which expert of which layer `name` is, where both lie in range.
pub fn expert_weight_slot(name: &str, num_layers: usize, num_experts: usize) -> (r: Option<
    (usize, usize),
>)
    ensures
        r matches Some((l, e)) ==> expert_weight_in(name@) == Some((l as nat, e as nat)) && l
            < num_layers && e < num_experts,
        r is None ==> (expert_weight_in(name@) matches Some((l, e)) ==> l >= num_layers || e
            >= num_experts),
{
    let parts = split_chars(&chars_of(name), '.');
    let ghost pv = split_on(name@, '.');
    assert(pv =~= char_views(parts@));
    let n: usize = parts.len();
    assert(pv.len() == n);
    if n < 7 {
        return None;
    }
    let fc = chars_of("c_fc");
    let proj = chars_of("c_proj");
    let moe = chars_of("moe");
    let experts = chars_of("experts");
    if !same_chars(&parts[0], &chars_of("blocks")) || !same_chars(&parts[n - 1], &chars_of("weight"))
    {
        return None;
    }
    let at: usize = if same_chars(&parts[2], &moe) && same_chars(&parts[3], &experts) && (same_chars(
        &parts[5],
        &fc,
    ) || same_chars(&parts[5], &proj)) {
        4
    } else if n >= 8 && (same_chars(&parts[2], &chars_of("stream_a")) || same_chars(
        &parts[2],
        &chars_of("stream_b"),
    )) && same_chars(&parts[3], &moe) && same_chars(&parts[4], &experts) && (same_chars(
        &parts[6],
        &fc,
    ) || same_chars(&parts[6], &proj)) {
        5
    } else {
        return None;
    };
    assert(at == 4 ==> is_single_expert_weight(pv));
    assert(at == 5 ==> is_stream_expert_weight(pv) && !is_single_expert_weight(pv));
    match (parse_usize(&parts[1]), parse_usize(&parts[at])) {
        (Some(l), Some(e)) => if l < num_layers && e < num_experts {
            Some((l, e))
        } else {
            None
        },
        _ => None,
    }
}

/// Whether `name` counts in the telemetry of weights.
pub fn is_weight(name: &str) -> (r: bool)
    ensures
        r == contains_text(name@, "weight"@),
{
    has_text(name, "weight")
}

/// The expert whose mass the weight `name` adds to, where it is below `num_experts`.
pub fn expert_mass_slot(name: &str, num_experts: usize) -> (r: Option<usize>)
    ensures
        r matches Some(e) ==> contains_text(name@, "weight"@) && below(
            expert_in(name@),
            num_experts as nat,
        ) == Some(e as nat),
        r is None ==> !contains_text(name@, "weight"@) || below(
            expert_in(name@),
            num_experts as nat,
        ) is None,
{
    if !is_weight(name) {
        return None;
    }
    match expert_index(name) {
        Some(e) => if e < num_experts {
            Some(e)
        } else {
            None
        },
        None => None,
    }
}

/// Where gradients count: a tensor of a block of the model in the place of its layer, the embedding and
/// the output head in the two places behind the layers, and any other nowhere.
pub proof fn law_gradient_places(l: nat, t: Seq<char>, name: Seq<char>, num_layers: nat)
    requires
        l <= usize::MAX,
    ensures
        grad_slot_in(block_prefix(l) + t, num_layers) == (if l < num_layers {
            Some(l)
        } else {
            None
        }),
        grad_slot_in("embed."@ + t, num_layers) == Some(num_layers),
        grad_slot_in("lm_head."@ + t, num_layers) == Some(num_layers + 1),
        !starts_with(name, "blocks."@) && !starts_with(name, "embed."@) && !starts_with(
            name,
            "lm_head."@,
        ) ==> grad_slot_in(name, num_layers) is None,
{
    reveal_strlit("blocks.");
    reveal_strlit("embed.");
    reveal_strlit("lm_head.");
    lemma_block_prefix_layer(l, t);
    let tail = decimal(l) + "."@ + t;
    assert(block_prefix(l) + t =~= "blocks."@ + tail);
    lemma_starts_with(tail, "blocks."@);
    lemma_starts_with(t, "embed."@);
    lemma_starts_with(t, "lm_head."@);
    assert(("embed."@ + t)[0] == 'e');
    assert(("lm_head."@ + t)[0] == 'l');
    if starts_with("embed."@ + t, "blocks."@) {
        assert(("embed."@ + t).subrange(0, 7)[0] == 'b');
    }
    if starts_with("lm_head."@ + t, "blocks."@) {
        assert(("lm_head."@ + t).subrange(0, 7)[0] == 'b');
    }
    if starts_with("lm_head."@ + t, "embed."@) {
        assert(("lm_head."@ + t).subrange(0, 6)[0] == 'e');
    }
}

/// A name speaks of the expert whose number follows its first `experts.`.
pub proof fn law_expert_follows_its_word(a: Seq<char>, e: nat, b: Seq<char>)
    requires
        e <= usize::MAX,
        forall|i: int|
            0 <= i < a.len() ==> !#[trigger] occurs_at(
                a + "experts."@ + decimal(e) + "."@ + b,
                "experts."@,
                i,
            ),
    ensures
        expert_in(a + "experts."@ + decimal(e) + "."@ + b) == Some(e),
{
    reveal_strlit(".");
    reveal_strlit("experts.");
    lemma_decimal(e);
    let p = "experts."@;
    let rest = decimal(e) + "."@ + b;
    let name = a + p + decimal(e) + "."@ + b;
    let at = a.len() as int;
    assert(name =~= a + p + rest);
    assert(name.subrange(at, at + p.len()) =~= p);
    assert(occurs_at(name, p, at));
    crate::text::lemma_find_from_is(name, p, 0, at);
    assert(name.skip(at + p.len()) =~= rest);
    let d = decimal(e).len() as int;
    lemma_find_from(rest, p, 0);
    match find_from(rest, p, 0) {
        Some(j) => {
            assert(rest.subrange(j, j + p.len())[0] == 'e');
            assert(rest[j] == 'e');
            if j < d {
                assert(rest[j] == decimal(e)[j]);
                assert(crate::numerals::is_digit(decimal(e)[j]));
            }
            assert(rest[d] == '.');
            assert(j > d);
            let piece = rest.subrange(0, j);
            assert(piece.subrange(0, d) =~= decimal(e));
            lemma_number_before_dot(piece, e);
        },
        None => {
            assert(rest.subrange(0, d) =~= decimal(e));
            lemma_number_before_dot(rest, e);
        },
    }
}

/// What begins with a number and a dot has the number before its first dot.
proof fn lemma_number_before_dot(s: Seq<char>, e: nat)
    requires
        s.len() > decimal(e).len(),
        s.subrange(0, decimal(e).len() as int) == decimal(e),
        s[decimal(e).len() as int] == '.',
    ensures
        before(s, '.') == decimal(e),
{
    lemma_decimal(e);
    let d = decimal(e).len() as int;
    assert forall|j: int| 0 <= j < d implies s[j] != '.' by {
        assert(s[j] == s.subrange(0, d)[j]);
        assert(crate::numerals::is_digit(decimal(e)[j]));
    }
    lemma_char_from_is(s, '.', 0, d);
}

/// The two matrices of an expert are found by their names, in a model of one stream and in either stream
/// of two.
pub proof fn law_expert_matrices_are_found(l: nat, e: nat, stream: Seq<char>, matrix: Seq<char>)
    requires
        l <= usize::MAX,
        e <= usize::MAX,
        stream == "stream_a"@ || stream == "stream_b"@,
        matrix == "c_fc"@ || matrix == "c_proj"@,
    ensures
        expert_weight_in(
            block_prefix(l) + "moe.experts."@ + decimal(e) + "."@ + matrix + ".weight"@,
        ) == Some((l, e)),
        expert_weight_in(
            block_prefix(l) + stream + ".moe.experts."@ + decimal(e) + "."@ + matrix + ".weight"@,
        ) == Some((l, e)),
{
    reveal_strlit(".");
    reveal_strlit("blocks");
    reveal_strlit("blocks.");
    reveal_strlit("moe");
    reveal_strlit("experts");
    reveal_strlit("moe.experts.");
    reveal_strlit(".moe.experts.");
    reveal_strlit("weight");
    reveal_strlit(".weight");
    reveal_strlit("c_fc");
    reveal_strlit("c_proj");
    reveal_strlit("stream_a");
    reveal_strlit("stream_b");
    lemma_no_dot_in_decimal(l);
    lemma_no_dot_in_decimal(e);
    lemma_decimal(l);
    lemma_decimal(e);
    let dot = seq!['.'];
    let single = seq!["blocks"@, decimal(l), "moe"@, "experts"@, decimal(e), matrix, "weight"@];
    let dual = seq![
        "blocks"@,
        decimal(l),
        stream,
        "moe"@,
        "experts"@,
        decimal(e),
        matrix,
        "weight"@,
    ];
    lemma_join_of(single);
    lemma_join_of(dual);
    let a = block_prefix(l) + "moe.experts."@ + decimal(e) + "."@ + matrix + ".weight"@;
    let b = block_prefix(l) + stream + ".moe.experts."@ + decimal(e) + "."@ + matrix + ".weight"@;
    assert("moe.experts."@ =~= "moe"@ + dot + "experts"@ + dot);
    assert(".moe.experts."@ =~= dot + "moe"@ + dot + "experts"@ + dot);
    assert(".weight"@ =~= dot + "weight"@);
    assert("."@ =~= dot);
    assert("blocks."@ =~= "blocks"@ + dot);
    assert(a =~= "blocks"@ + dot + decimal(l) + dot + "moe"@ + dot + "experts"@ + dot + decimal(e) + dot
        + matrix + dot + "weight"@);
    assert(b =~= "blocks"@ + dot + decimal(l) + dot + stream + dot + "moe"@ + dot + "experts"@ + dot
        + decimal(e) + dot + matrix + dot + "weight"@);
    crate::text::law_split_undoes_join(single, '.');
    crate::text::law_split_undoes_join(dual, '.');
    assert(stream[0] == 's');
    assert("moe"@[0] == 'm');
}

/// A decimal number holds no dot.
proof fn lemma_no_dot_in_decimal(n: nat)
    ensures
        !decimal(n).contains('.'),
{
    lemma_decimal(n);
    if decimal(n).contains('.') {
        let i = choose|i: int| 0 <= i < decimal(n).len() && decimal(n)[i] == '.';
        assert(crate::numerals::is_digit(decimal(n)[i]));
    }
}

/// Seven or eight pieces, joined with dots.
proof fn lemma_join_of(p: Seq<Seq<char>>)
    requires
        p.len() == 7 || p.len() == 8,
    ensures
        p.len() == 7 ==> crate::text::join(p, seq!['.']) == p[0] + seq!['.'] + p[1] + seq!['.'] + p[2]
            + seq!['.'] + p[3] + seq!['.'] + p[4] + seq!['.'] + p[5] + seq!['.'] + p[6],
        p.len() == 8 ==> crate::text::join(p, seq!['.']) == p[0] + seq!['.'] + p[1] + seq!['.'] + p[2]
            + seq!['.'] + p[3] + seq!['.'] + p[4] + seq!['.'] + p[5] + seq!['.'] + p[6] + seq!['.']
            + p[7],
{
    reveal_with_fuel(crate::text::join, 9);
}

/// A name is that of an expert's matrix only where its pieces say so: the block, the experts of the block
/// or of one of its streams, the expert, one of the two matrices, and that it is a weight.
pub proof fn law_nothing_else_is_an_expert_matrix(name: Seq<char>)
    ensures
        expert_weight_in(name) matches Some((l, e)) ==> ({
            let p = split_on(name, '.');
            let at: int = if p[2] == "moe"@ {
                2
            } else {
                3
            };
            &&& p.len() >= at + 5
            &&& p[0] == "blocks"@
            &&& number_up_to(p[1], usize::MAX as int) == Some(l)
            &&& at == 3 ==> p[2] == "stream_a"@ || p[2] == "stream_b"@
            &&& p[at] == "moe"@
            &&& p[at + 1] == "experts"@
            &&& number_up_to(p[at + 2], usize::MAX as int) == Some(e)
            &&& p[at + 3] == "c_fc"@ || p[at + 3] == "c_proj"@
            &&& p.last() == "weight"@
        }),
{
    reveal_strlit("moe");
    reveal_strlit("stream_a");
    reveal_strlit("stream_b");
    assert("moe"@[0] == 'm');
    assert("stream_a"@[0] == 's');
    assert("stream_b"@[0] == 's');
}

/// A name without `experts.` speaks of no expert.
pub proof fn law_no_expert_without_its_word(name: Seq<char>)
    ensures
        !contains_text(name, "experts."@) ==> expert_in(name) is None,
{
    lemma_find_from(name, "experts."@, 0);
}

/// A name speaks of a layer only where it says so: `blocks.`, and the layer before the next dot.
pub proof fn law_layer_stands_behind_blocks(name: Seq<char>, l: nat, t: Seq<char>)
    requires
        l <= usize::MAX,
    ensures
        layer_in("blocks."@ + decimal(l) + "."@ + t) == Some(l),
        layer_in(name) matches Some(k) ==> starts_with(name, "blocks."@) && number_up_to(
            before(name.skip("blocks."@.len() as int), '.'),
            usize::MAX as int,
        ) == Some(k),
        !starts_with(name, "blocks."@) ==> layer_in(name) is None,
{
    lemma_block_prefix_layer(l, t);
}

/// A tensor lies under a block of a model exactly where its name begins with `blocks.`, the number of a
/// layer that the model has, and a dot.
pub proof fn law_block_is_named_first(name: Seq<char>, num_layers: nat, l: nat)
    requires
        num_layers <= usize::MAX,
    ensures
        block_of(name, num_layers) == Some(l) <==> l < num_layers && starts_with(
            name,
            "blocks."@ + decimal(l) + "."@,
        ),
{
    lemma_block_of(name, num_layers, l);
}

} // verus!
