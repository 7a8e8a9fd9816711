//! Pairing the output ports of one node with the input ports of another.
use vstd::prelude::*;
use crate::text::str_eq;

verus! {

/// What the port mapper reads of a port: its id and channel label.
#[derive(Debug)]
pub struct PortKey {
    pub id: u32,
    pub channel: String,
}

/// A channel label that can be matched: neither empty nor "unknown".
pub open spec fn is_label(c: Seq<char>) -> bool {
    c.len() > 0 && c != "unknown"@
}

/// Some pair of `pairs` has `id` as its input port.
pub open spec fn uses_input(pairs: Seq<(u32, u32)>, id: u32) -> bool {
    exists|t: int| 0 <= t < pairs.len() && pairs[t].1 == id
}

/// Some pair of `pairs` has `id` as its output port.
pub open spec fn uses_output(pairs: Seq<(u32, u32)>, id: u32) -> bool {
    exists|t: int| 0 <= t < pairs.len() && pairs[t].0 == id
}

pub open spec fn label_candidate(p: PortKey, pairs: Seq<(u32, u32)>, ch: Seq<char>) -> bool {
    !uses_input(pairs, p.id) && is_label(p.channel@) && p.channel@ == ch
}

/// The first input port at or after `j` that is unused and carries label `ch`.
pub open spec fn first_label_match(ins: Seq<PortKey>, pairs: Seq<(u32, u32)>, ch: Seq<char>, j: int) -> Option<int>
    decreases ins.len() - j,
{
    if j < 0 || j >= ins.len() {
        None
    } else if label_candidate(ins[j], pairs, ch) {
        Some(j)
    } else {
        first_label_match(ins, pairs, ch, j + 1)
    }
}

/// The pairs made by exact label matching over the first `k` output ports.
pub open spec fn label_pairs(outs: Seq<PortKey>, ins: Seq<PortKey>, k: int) -> Seq<(u32, u32)>
    decreases k,
{
    if k <= 0 {
        Seq::empty()
    } else {
        let prev = label_pairs(outs, ins, k - 1);
        match first_label_match(ins, prev, outs[k - 1].channel@, 0) {
            Some(j) => prev.push((outs[k - 1].id, ins[j].id)),
            None => prev,
        }
    }
}

/// The positional pairs added, over the first `k` output ports, for those that
/// label matching left unpaired.
pub open spec fn fallback_pairs(
    outs: Seq<PortKey>,
    ins: Seq<PortKey>,
    labelled: Seq<(u32, u32)>,
    k: int,
) -> Seq<(u32, u32)>
    decreases k,
{
    if k <= 0 {
        Seq::empty()
    } else {
        let prev = fallback_pairs(outs, ins, labelled, k - 1);
        let o = outs[k - 1];
        if !uses_output(labelled, o.id) && k - 1 < ins.len() && !uses_input(
            labelled + prev,
            ins[k - 1].id,
        ) {
            prev.push((o.id, ins[k - 1].id))
        } else {
            prev
        }
    }
}

pub open spec fn min_len(a: int, b: int) -> int {
    if a < b {
        a
    } else {
        b
    }
}

/// The (output port, input port) pairs to link.
pub open spec fn spec_map_ports(outs: Seq<PortKey>, ins: Seq<PortKey>) -> Seq<(u32, u32)> {
    if outs.len() == 0 || ins.len() == 0 {
        Seq::empty()
    } else if outs.len() == 1 {
        ins.map_values(|p: PortKey| (outs[0].id, p.id))
    } else {
        let l = label_pairs(outs, ins, outs.len() as int);
        if l.len() < min_len(outs.len() as int, ins.len() as int) {
            l + fallback_pairs(outs, ins, l, outs.len() as int)
        } else {
            l
        }
    }
}

fn pairs_use_input(pairs: &Vec<(u32, u32)>, extra: &Vec<(u32, u32)>, id: u32) -> (r: bool)
    ensures
        r == uses_input(pairs@ + extra@, id),
{
    let ghost all = pairs@ + extra@;
    let mut i: usize = 0;
    while i < pairs.len()
        invariant
            0 <= i <= pairs@.len(),
            all == pairs@ + extra@,
            forall|t: int| 0 <= t < i ==> all[t].1 != id,
        decreases pairs@.len() - i,
    {
        if pairs[i].1 == id {
            assert(all[i as int].1 == id);
            return true;
        }
        i = i + 1;
    }
    let mut j: usize = 0;
    while j < extra.len()
        invariant
            0 <= j <= extra@.len(),
            all == pairs@ + extra@,
            forall|t: int| 0 <= t < pairs@.len() + j ==> all[t].1 != id,
        decreases extra@.len() - j,
    {
        if extra[j].1 == id {
            assert(all[pairs@.len() + j].1 == id);
            return true;
        }
        j = j + 1;
    }
    false
}

fn pairs_use_output(pairs: &Vec<(u32, u32)>, id: u32) -> (r: bool)
    ensures
        r == uses_output(pairs@, id),
{
    let mut i: usize = 0;
    while i < pairs.len()
        invariant
            0 <= i <= pairs@.len(),
            forall|t: int| 0 <= t < i ==> pairs@[t].0 != id,
        decreases pairs@.len() - i,
    {
        if pairs[i].0 == id {
            return true;
        }
        i = i + 1;
    }
    false
}

fn is_label_exec(c: &String) -> (r: bool)
    ensures
        r == is_label(c@),
{
    !c.as_str().is_empty() && !str_eq(c.as_str(), "unknown")
}

/// Pairs output ports with input ports. One output port fans out to every
/// input port. Otherwise ports whose channel labels match exactly are paired,
/// each input port used once, and output ports left unpaired fall back to the
/// input port at the same position when that one is still free.
pub fn map_ports(output_ports: &Vec<PortKey>, input_ports: &Vec<PortKey>) -> (r: Vec<(u32, u32)>)
    ensures
        r@ == spec_map_ports(output_ports@, input_ports@),
{
    let ghost outs = output_ports@;
    let ghost ins = input_ports@;
    let mut pairs: Vec<(u32, u32)> = Vec::new();
    if output_ports.len() == 0 || input_ports.len() == 0 {
        return pairs;
    }
    if output_ports.len() == 1 {
        let out_id = output_ports[0].id;
        let mut i: usize = 0;
        while i < input_ports.len()
            invariant
                0 <= i <= ins.len(),
                ins == input_ports@,
                outs == output_ports@,
                outs.len() == 1,
                out_id == outs[0].id,
                pairs@ == ins.subrange(0, i as int).map_values(|p: PortKey| (outs[0].id, p.id)),
            decreases ins.len() - i,
        {
            pairs.push((out_id, input_ports[i].id));
            i = i + 1;
            proof {
                assert(pairs@ =~= ins.subrange(0, i as int).map_values(
                    |p: PortKey| (outs[0].id, p.id),
                ));
            }
        }
        proof {
            assert(ins.subrange(0, ins.len() as int) =~= ins);
        }
        return pairs;
    }
    let empty: Vec<(u32, u32)> = Vec::new();
    let mut k: usize = 0;
    while k < output_ports.len()
        invariant
            0 <= k <= outs.len(),
            outs == output_ports@,
            ins == input_ports@,
            empty@.len() == 0,
            pairs@ == label_pairs(outs, ins, k as int),
        decreases outs.len() - k,
    {
        let ghost prev = pairs@;
        let ch = &output_ports[k].channel;
        let mut j: usize = 0;
        let mut found: Option<usize> = None;
        proof {
            assert(prev + empty@ =~= prev);
        }
        while j < input_ports.len()
            invariant_except_break
                found is None,
            invariant
                0 <= j <= ins.len(),
                ins == input_ports@,
                outs == output_ports@,
                k < outs.len(),
                ch@ == outs[k as int].channel@,
                prev == pairs@,
                prev + empty@ == prev,
                first_label_match(ins, prev, ch@, 0) == first_label_match(ins, prev, ch@, j as int),
            ensures
                found is Some ==> first_label_match(ins, prev, ch@, 0) == Some(found->0 as int)
                    && found->0 < ins.len(),
                found is None ==> first_label_match(ins, prev, ch@, 0) == None::<int>,
            decreases ins.len() - j,
        {
            let cand = &input_ports[j];
            if !pairs_use_input(&pairs, &empty, cand.id) && is_label_exec(&cand.channel)
                && cand.channel == *ch {
                found = Some(j);
                break;
            }
            j = j + 1;
        }
        if let Some(jj) = found {
            pairs.push((output_ports[k].id, input_ports[jj].id));
        }
        k = k + 1;
    }
    let min = if output_ports.len() < input_ports.len() {
        output_ports.len()
    } else {
        input_ports.len()
    };
    if pairs.len() < min {
        let ghost l = pairs@;
        let mut fallback: Vec<(u32, u32)> = Vec::new();
        let mut i: usize = 0;
        while i < output_ports.len()
            invariant
                0 <= i <= outs.len(),
                outs == output_ports@,
                ins == input_ports@,
                l == pairs@,
                fallback@ == fallback_pairs(outs, ins, l, i as int),
            decreases outs.len() - i,
        {
            let out_id = output_ports[i].id;
            if !pairs_use_output(&pairs, out_id) && i < input_ports.len() {
                if !pairs_use_input(&pairs, &fallback, input_ports[i].id) {
                    fallback.push((out_id, input_ports[i].id));
                }
            }
            i = i + 1;
        }
        let mut t: usize = 0;
        while t < fallback.len()
            invariant
                0 <= t <= fallback@.len(),
                pairs@ == l + fallback@.subrange(0, t as int),
            decreases fallback@.len() - t,
        {
            pairs.push(fallback[t]);
            t = t + 1;
            proof {
                assert(pairs@ =~= l + fallback@.subrange(0, t as int));
            }
        }
        proof {
            assert(fallback@.subrange(0, fallback@.len() as int) =~= fallback@);
        }
    }
    pairs
}

} // verus!
