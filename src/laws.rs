use vstd::prelude::*;
use crate::assemble::{
    assemble_spec, first_pass_spec, has_unknown_label, is_blank_or_comment,
    lemma_first_pass_layout, line_body, line_label, pending_label, resolve_entry,
    INSTRUCTION_WIDTH,
};
use crate::decode::{AsmError, ImmView, InstrView};
use crate::lex::tokens_of;

verus! {

/// Adding the instruction's address, the instruction width and the
/// displacement that resolution gives a label reference yields the label's
/// address again.
pub proof fn lemma_displacement_round_trip(labels: Map<Seq<char>, u32>, e: (u32, InstrView))
    requires
        pending_label(e) is Some,
        labels.contains_key(pending_label(e)->Some_0),
        labels[pending_label(e)->Some_0] <= i32::MAX,
        e.0 as int + INSTRUCTION_WIDTH as int <= i32::MAX,
    ensures
        match resolve_entry(labels, e).1.imm {
            Some(ImmView::S32(d)) => e.0 as int + INSTRUCTION_WIDTH as int + d as int
                == labels[pending_label(e)->Some_0] as int,
            _ => false,
        },
        resolve_entry(labels, e).0 == e.0,
{
}

/// After a successful run, the instruction at index `k` that referred to a
/// label carries `L - (A + 4)`, where `A` is its address and `L` the address
/// that the whole program binds the label to, whether the label comes
/// before or after it in the source.
pub proof fn lemma_resolved_displacement(lines: Seq<Seq<char>>, k: int)
    requires
        lines.len() < 0x2000_0000,
        assemble_spec(lines) is Ok,
        0 <= k < first_pass_spec(lines)->Ok_0.1.len(),
        pending_label(first_pass_spec(lines)->Ok_0.1[k]) is Some,
    ensures
        ({
            let p = first_pass_spec(lines)->Ok_0;
            let name = pending_label(p.1[k])->Some_0;
            let out = assemble_spec(lines)->Ok_0;
            &&& p.0.contains_key(name)
            &&& out[k].0 == 4 * k
            &&& out[k].1.imm matches Some(ImmView::S32(d)) && d as int == p.0[name] as int - (4 * k
                + 4)
        }),
{
    lemma_first_pass_layout(lines);
    let p = first_pass_spec(lines)->Ok_0;
    let name = pending_label(p.1[k])->Some_0;
    assert(!has_unknown_label(p.0, p.1));
    assert(p.0.contains_key(name));
    assert(p.1[k].0 == 4 * k);
}

/// No label reference survives a successful run, and a run whose first pass
/// leaves a reference to an unbound label fails with `UnknownLabel`.
pub proof fn lemma_no_label_survives(lines: Seq<Seq<char>>)
    ensures
        assemble_spec(lines) is Ok ==> forall|k: int|
            0 <= k < assemble_spec(lines)->Ok_0.len() ==> #[trigger] pending_label(
                assemble_spec(lines)->Ok_0[k],
            ) is None,
        first_pass_spec(lines) is Ok && has_unknown_label(
            first_pass_spec(lines)->Ok_0.0,
            first_pass_spec(lines)->Ok_0.1,
        ) ==> assemble_spec(lines) == Err::<Seq<(u32, InstrView)>, AsmError>(
            AsmError::UnknownLabel,
        ),
{
}

/// Removing a blank or comment line changes neither pass: such lines bind
/// no label, take no address and add nothing to the listing.
pub proof fn lemma_blank_lines_ignored(lines: Seq<Seq<char>>, i: int)
    requires
        0 <= i < lines.len(),
        is_blank_or_comment(lines[i]),
    ensures
        first_pass_spec(lines.remove(i)) == first_pass_spec(lines),
        assemble_spec(lines.remove(i)) == assemble_spec(lines),
    decreases lines.len(),
{
    let t = tokens_of(lines[i]);
    assert(line_label(t) is None);
    assert(line_body(t) is None);
    if i == lines.len() - 1 {
        assert(lines.remove(i) =~= lines.drop_last());
    } else {
        lemma_blank_lines_ignored(lines.drop_last(), i);
        assert(lines.remove(i).drop_last() =~= lines.drop_last().remove(i));
        assert(lines.remove(i).last() == lines.last());
    }
}

} // verus!
