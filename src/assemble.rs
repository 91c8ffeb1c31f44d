use vstd::prelude::*;
use crate::decode::{
    decode_at, decode_tokens, AsmError, ImmView, Immediate, InstrView, Instruction,
};
use crate::lex::{chars_of, tokenize, tokens_of};

verus! {

/// The fixed address increment of one instruction.
pub const INSTRUCTION_WIDTH: u32 = 4;

/// A label table: bindings in the order they were made. A later binding of
/// a name overrides an earlier one.
pub struct LabelTable {
    pub entries: Vec<(String, u32)>,
}

/// The map that a sequence of bindings denotes, the last binding of each
/// name winning.
pub open spec fn bindings_map(s: Seq<(Seq<char>, u32)>) -> Map<Seq<char>, u32>
    decreases s.len(),
{
    if s.len() == 0 {
        Map::empty()
    } else {
        bindings_map(s.drop_last()).insert(s.last().0, s.last().1)
    }
}

pub open spec fn bindings_view(e: Seq<(String, u32)>) -> Seq<(Seq<char>, u32)> {
    e.map_values(|b: (String, u32)| (b.0@, b.1))
}

impl View for LabelTable {
    type V = Map<Seq<char>, u32>;

    open spec fn view(&self) -> Map<Seq<char>, u32> {
        bindings_map(bindings_view(self.entries@))
    }
}

impl LabelTable {
    /// An empty table.
    pub fn new() -> (r: LabelTable)
        ensures
            r@ == Map::<Seq<char>, u32>::empty(),
    {
        let r = LabelTable { entries: Vec::new() };
        assert(bindings_view(r.entries@) =~= Seq::empty());
        r
    }

    /// Binds `name` to `addr`, replacing any earlier binding of `name`.
    pub fn insert(&mut self, name: String, addr: u32)
        ensures
            final(self)@ == old(self)@.insert(name@, addr),
    {
        let ghost before = bindings_view(self.entries@);
        self.entries.push((name, addr));
        assert(bindings_view(self.entries@).drop_last() =~= before);
    }

    /// The address bound to `name`, if any.
    pub fn get(&self, name: &String) -> (r: Option<u32>)
        ensures
            r == (if self@.contains_key(name@) {
                Some(self@[name@])
            } else {
                None
            }),
    {
        let ghost s = bindings_view(self.entries@);
        let mut i = self.entries.len();
        assert(s.take(i as int) =~= s);
        while i > 0
            invariant
                s == bindings_view(self.entries@),
                i <= s.len(),
                bindings_map(s).contains_key(name@) == bindings_map(s.take(i as int)).contains_key(
                    name@,
                ),
                bindings_map(s).contains_key(name@) ==> bindings_map(s)[name@] == bindings_map(
                    s.take(i as int),
                )[name@],
            decreases i,
        {
            assert(s.take(i as int).drop_last() =~= s.take(i - 1));
            assert(s[i - 1] == (self.entries@[i - 1].0@, self.entries@[i - 1].1));
            if self.entries[i - 1].0 == *name {
                return Some(self.entries[i - 1].1);
            }
            i = i - 1;
        }
        assert(s.take(0) =~= Seq::empty());
        None
    }
}

/// A listing entry as (address, instruction value).
pub open spec fn entry_view(e: (u32, Instruction)) -> (u32, InstrView) {
    (e.0, e.1@)
}

pub open spec fn listing_view(l: Seq<(u32, Instruction)>) -> Seq<(u32, InstrView)> {
    l.map_values(|e: (u32, Instruction)| entry_view(e))
}

/// The signed distance from the instruction after the one at `ins_addr` to
/// `label_addr`.
pub open spec fn displacement(label_addr: u32, ins_addr: u32) -> int {
    label_addr as int - (ins_addr as int + INSTRUCTION_WIDTH as int)
}

/// The label that an entry's immediate still refers to, if any.
pub open spec fn pending_label(e: (u32, InstrView)) -> Option<Seq<char>> {
    match e.1.imm {
        Some(ImmView::Label(n)) => Some(n),
        _ => None,
    }
}

/// Some entry refers to a label that `labels` does not bind.
pub open spec fn has_unknown_label(labels: Map<Seq<char>, u32>, l: Seq<(u32, InstrView)>) -> bool {
    exists|k: int|
        0 <= k < l.len() && #[trigger] pending_label(l[k]) is Some && !labels.contains_key(
            pending_label(l[k])->Some_0,
        )
}

/// An entry with its label reference, if any, replaced by the displacement
/// to the label's address.
pub open spec fn resolve_entry(labels: Map<Seq<char>, u32>, e: (u32, InstrView)) -> (u32, InstrView) {
    match pending_label(e) {
        Some(n) => (
            e.0,
            InstrView {
                imm: Some(ImmView::S32(displacement(labels[n], e.0) as i32)),
                ..e.1
            },
        ),
        None => e,
    }
}

/// Addresses and label values small enough that every displacement fits
/// in an `i32`.
pub open spec fn addresses_in_range(labels: Map<Seq<char>, u32>, l: Seq<(u32, InstrView)>) -> bool {
    &&& forall|k: int| 0 <= k < l.len() ==> #[trigger] l[k].0 as int + 4 <= i32::MAX
    &&& forall|n: Seq<char>| #[trigger] labels.contains_key(n) ==> labels[n] <= i32::MAX
}

/// Rewrites every label reference in `ins_vec` into the signed displacement
/// from the following instruction to the label. Fails, leaving `ins_vec` as
/// it was, when some reference names a label that `label_map` lacks.
pub fn replace_label(ins_vec: &mut Vec<(u32, Instruction)>, label_map: &LabelTable) -> (r: Result<
    (),
    AsmError,
>)
    requires
        addresses_in_range(label_map@, listing_view(old(ins_vec)@)),
    ensures
        r is Err <==> has_unknown_label(label_map@, listing_view(old(ins_vec)@)),
        r is Err ==> r == Err::<(), AsmError>(AsmError::UnknownLabel) && final(ins_vec)@ == old(
            ins_vec,
        )@,
        r is Ok ==> listing_view(final(ins_vec)@) == listing_view(old(ins_vec)@).map_values(
            |e: (u32, InstrView)| resolve_entry(label_map@, e),
        ),
{
    let ghost lv = listing_view(ins_vec@);
    let n = ins_vec.len();
    let mut i: usize = 0;
    while i < n
        invariant
            n == ins_vec@.len(),
            lv == listing_view(ins_vec@),
            i <= n,
            forall|k: int|
                0 <= k < i ==> #[trigger] pending_label(lv[k]) is Some ==> label_map@.contains_key(
                    pending_label(lv[k])->Some_0,
                ),
        decreases n - i,
    {
        assert(lv[i as int] == entry_view(ins_vec@[i as int]));
        if let Some(Immediate::Label(name)) = &ins_vec[i].1.imm {
            if label_map.get(name).is_none() {
                assert(pending_label(lv[i as int]) == Some(name@));
                return Err(AsmError::UnknownLabel);
            }
        }
        i = i + 1;
    }
    let ghost target = lv.map_values(|e: (u32, InstrView)| resolve_entry(label_map@, e));
    let mut j: usize = 0;
    while j < n
        invariant
            n == ins_vec@.len(),
            lv.len() == n,
            j <= n,
            addresses_in_range(label_map@, lv),
            forall|k: int|
                0 <= k < n ==> #[trigger] pending_label(lv[k]) is Some ==> label_map@.contains_key(
                    pending_label(lv[k])->Some_0,
                ),
            target == lv.map_values(|e: (u32, InstrView)| resolve_entry(label_map@, e)),
            forall|k: int| 0 <= k < j ==> entry_view(#[trigger] ins_vec@[k]) == target[k],
            forall|k: int| j <= k < n ==> entry_view(#[trigger] ins_vec@[k]) == lv[k],
        decreases n - j,
    {
        assert(entry_view(ins_vec@[j as int]) == lv[j as int]);
        let addr = ins_vec[j].0;
        let resolved = match &ins_vec[j].1.imm {
            Some(Immediate::Label(name)) => match label_map.get(name) {
                Some(label_addr) => {
                    assert(label_map@.contains_key(name@));
                    assert(label_addr <= i32::MAX);
                    assert(lv[j as int].0 == addr);
                    assert(addr as int + 4 <= i32::MAX);
                    Some((label_addr as i32) - ((addr as i32) + 4))
                },
                None => None,
            },
            _ => None,
        };
        if let Some(d) = resolved {
            let ins = &ins_vec[j].1;
            let new_ins = Instruction {
                op: ins.op,
                rd: ins.rd,
                rs1: ins.rs1,
                rs2: ins.rs2,
                imm: Some(Immediate::S32(d)),
            };
            ins_vec.set(j, (addr, new_ins));
        }
        assert(entry_view(ins_vec@[j as int]) == target[j as int]);
        j = j + 1;
    }
    proof {
        assert(listing_view(ins_vec@) =~= target);
        assert(!has_unknown_label(label_map@, lv));
    }
    Ok(())
}

/// A token that opens a comment.
pub open spec fn is_comment_token(tok: Seq<char>) -> bool {
    tok.len() > 0 && tok[0] == ';'
}

/// A token that defines a label.
pub open spec fn is_label_token(tok: Seq<char>) -> bool {
    tok.len() > 0 && tok.last() == ':'
}

/// The label that a line with tokens `t` defines, if any.
pub open spec fn line_label(t: Seq<Seq<char>>) -> Option<Seq<char>> {
    if t.len() > 0 && !is_comment_token(t[0]) && is_label_token(t[0]) {
        Some(t[0].drop_last())
    } else {
        None
    }
}

/// The tokens of the instruction that a line with tokens `t` holds, if any:
/// none for a blank or comment line, or for a label alone (or followed by a
/// comment); what follows the label for a label line; all of `t` otherwise.
pub open spec fn line_body(t: Seq<Seq<char>>) -> Option<Seq<Seq<char>>> {
    if t.len() == 0 || is_comment_token(t[0]) {
        None
    } else if is_label_token(t[0]) {
        let rest = t.drop_first();
        if rest.len() == 0 || is_comment_token(rest[0]) {
            None
        } else {
            Some(rest)
        }
    } else {
        Some(t)
    }
}

/// A line that neither defines a label nor holds an instruction.
pub open spec fn is_blank_or_comment(line: Seq<char>) -> bool {
    let t = tokens_of(line);
    t.len() == 0 || is_comment_token(t[0])
}

/// The first pass over `lines`: the label table and the listing of
/// (address, instruction), each instruction at four times its index. The
/// first line that fails to decode ends the pass with its error.
pub open spec fn first_pass_spec(lines: Seq<Seq<char>>) -> Result<
    (Map<Seq<char>, u32>, Seq<(u32, InstrView)>),
    AsmError,
>
    decreases lines.len(),
{
    if lines.len() == 0 {
        Ok((Map::empty(), Seq::empty()))
    } else {
        match first_pass_spec(lines.drop_last()) {
            Err(e) => Err(e),
            Ok(prev) => {
                let t = tokens_of(lines.last());
                let addr = (INSTRUCTION_WIDTH * prev.1.len()) as u32;
                let labels = match line_label(t) {
                    Some(n) => prev.0.insert(n, addr),
                    None => prev.0,
                };
                match line_body(t) {
                    None => Ok((labels, prev.1)),
                    Some(b) => match decode_tokens(b) {
                        Ok(ins) => Ok((labels, prev.1.push((addr, ins)))),
                        Err(e) => Err(e),
                    },
                }
            },
        }
    }
}

/// The whole run: the first pass, then every label reference resolved.
pub open spec fn assemble_spec(lines: Seq<Seq<char>>) -> Result<Seq<(u32, InstrView)>, AsmError> {
    match first_pass_spec(lines) {
        Err(e) => Err(e),
        Ok(p) => if has_unknown_label(p.0, p.1) {
            Err(AsmError::UnknownLabel)
        } else {
            Ok(p.1.map_values(|e: (u32, InstrView)| resolve_entry(p.0, e)))
        },
    }
}

pub open spec fn lines_view(lines: Seq<String>) -> Seq<Seq<char>> {
    lines.map_values(|s: String| s@)
}

/// What the first pass yields on any input: addresses four apart from zero,
/// labels bound at most one past the last instruction.
pub proof fn lemma_first_pass_layout(lines: Seq<Seq<char>>)
    requires
        lines.len() < 0x2000_0000,
    ensures
        first_pass_spec(lines) is Ok ==> {
            let p = first_pass_spec(lines)->Ok_0;
            &&& p.1.len() <= lines.len()
            &&& forall|k: int| 0 <= k < p.1.len() ==> #[trigger] p.1[k].0 == 4 * k
            &&& forall|n: Seq<char>| #[trigger] p.0.contains_key(n) ==> p.0[n] <= 4 * p.1.len()
        },
    decreases lines.len(),
{
    if lines.len() > 0 {
        lemma_first_pass_layout(lines.drop_last());
        if first_pass_spec(lines) is Ok {
            let prev = first_pass_spec(lines.drop_last())->Ok_0;
            let p = first_pass_spec(lines)->Ok_0;
            assert forall|k: int| 0 <= k < p.1.len() implies #[trigger] p.1[k].0 == 4 * k by {
                if k < prev.1.len() {
                    assert(p.1[k] == prev.1[k]);
                }
            }
        }
    }
}

/// An error of the first pass on a prefix is the error of the whole.
proof fn lemma_first_pass_err(lines: Seq<Seq<char>>, i: int)
    requires
        0 <= i <= lines.len(),
        first_pass_spec(lines.take(i)) is Err,
    ensures
        first_pass_spec(lines) == first_pass_spec(lines.take(i)),
    decreases lines.len() - i,
{
    if i < lines.len() {
        assert(lines.take(i + 1).drop_last() =~= lines.take(i));
        lemma_first_pass_err(lines, i + 1);
    } else {
        assert(lines.take(i) =~= lines);
    }
}

/// The first pass over `lines`: the label table and the listing.
pub fn first_pass(lines: &Vec<String>) -> (r: Result<(LabelTable, Vec<(u32, Instruction)>), AsmError>)
    requires
        lines@.len() < 0x2000_0000,
    ensures
        match r {
            Ok(p) => first_pass_spec(lines_view(lines@)) == Ok::<
                (Map<Seq<char>, u32>, Seq<(u32, InstrView)>),
                AsmError,
            >((p.0@, listing_view(p.1@))),
            Err(e) => first_pass_spec(lines_view(lines@)) == Err::<
                (Map<Seq<char>, u32>, Seq<(u32, InstrView)>),
                AsmError,
            >(e),
        },
{
    let ghost lv = lines_view(lines@);
    let mut labels = LabelTable::new();
    let mut listing: Vec<(u32, Instruction)> = Vec::new();
    let mut i: usize = 0;
    assert(lv.take(0) =~= Seq::empty());
    assert(listing_view(listing@) =~= Seq::empty());
    while i < lines.len()
        invariant
            lv == lines_view(lines@),
            lines@.len() < 0x2000_0000,
            i <= lines@.len(),
            listing@.len() <= i,
            first_pass_spec(lv.take(i as int)) == Ok::<
                (Map<Seq<char>, u32>, Seq<(u32, InstrView)>),
                AsmError,
            >((labels@, listing_view(listing@))),
        decreases lines@.len() - i,
    {
        let ghost prev_labels = labels@;
        let ghost prev_listing = listing_view(listing@);
        assert(lv.take(i + 1).drop_last() =~= lv.take(i as int));
        assert(lv.take(i + 1).last() == lines@[i as int]@);
        let line = lines[i].as_str();
        let chars = chars_of(line);
        let spans = tokenize(&chars);
        let ghost t = tokens_of(chars@);
        let addr: u32 = 4 * (listing.len() as u32);
        let mut from: usize = 0;
        let mut has_body = false;
        if spans.len() > 0 {
            assert(t[0] == chars@.subrange(spans@[0].0 as int, spans@[0].1 as int));
            let (a, b) = spans[0];
            if chars[a] != ';' {
                if chars[b - 1] == ':' {
                    let name = line.substring_char(a, b - 1).to_owned();
                    assert(name@ =~= t[0].drop_last());
                    labels.insert(name, addr);
                    from = 1;
                    if spans.len() > 1 {
                        assert(t.drop_first()[0] == t[1]);
                        assert(t[1] == chars@.subrange(spans@[1].0 as int, spans@[1].1 as int));
                        has_body = chars[spans[1].0] != ';';
                    }
                } else {
                    has_body = true;
                }
            }
        }
        assert(has_body == (line_body(t) is Some));
        if has_body {
            assert(line_body(t) == Some(t.subrange(from as int, spans@.len() as int))) by {
                if from == 0 {
                    assert(t.subrange(0, spans@.len() as int) =~= t);
                } else {
                    assert(t.subrange(1, spans@.len() as int) =~= t.drop_first());
                }
            }
            match decode_at(line, &chars, &spans, from) {
                Ok(ins) => {
                    listing.push((addr, ins));
                    assert(listing_view(listing@) =~= prev_listing.push((addr, ins@)));
                },
                Err(e) => {
                    proof {
                        lemma_first_pass_err(lv, i + 1);
                    }
                    return Err(e);
                },
            }
        }
        i = i + 1;
    }
    assert(lv.take(i as int) =~= lv);
    Ok((labels, listing))
}

/// Runs both passes over `lines`: the listing of (address, instruction) with
/// every label reference resolved, or the first error.
pub fn assemble(lines: &Vec<String>) -> (r: Result<Vec<(u32, Instruction)>, AsmError>)
    requires
        lines@.len() < 0x2000_0000,
    ensures
        match r {
            Ok(l) => assemble_spec(lines_view(lines@)) == Ok::<Seq<(u32, InstrView)>, AsmError>(
                listing_view(l@),
            ),
            Err(e) => assemble_spec(lines_view(lines@)) == Err::<Seq<(u32, InstrView)>, AsmError>(
                e,
            ),
        },
{
    let (labels, mut listing) = match first_pass(lines) {
        Ok(p) => p,
        Err(e) => {
            return Err(e);
        },
    };
    proof {
        lemma_first_pass_layout(lines_view(lines@));
        let lv = listing_view(listing@);
        assert forall|k: int| 0 <= k < lv.len() implies #[trigger] lv[k].0 as int + 4 <= i32::MAX by {
        }
    }
    match replace_label(&mut listing, &labels) {
        Ok(()) => Ok(listing),
        Err(e) => Err(e),
    }
}

} // verus!
