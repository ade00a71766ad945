use vstd::prelude::*;

use crate::error::ProbeError;
use crate::scan::{
    after_line, lemma_span_spaces, lemma_span_until, parse_fixed_point, parse_u64_from, space,
    span_spaces, span_until, spec_fixed_point, spec_parse_u64, starts_with, tok_starts_with,
    Cursor,
};
use crate::text::{ascii_view, bytes_to_string};

verus! {

/// One physical CPU package: its identity, model, the clock reading of
/// each logical CPU in kilohertz, and its sibling and core counts.
///
/// A record is complete exactly when one clock reading per sibling has
/// been collected, so `cpus_mhz` always holds `siblings` entries.
#[derive(Debug, Clone, PartialEq, Eq)]
pub struct CPU {
    pub physical_id: usize,
    pub model_name: String,
    /// One reading per logical CPU, in kilohertz.
    pub cpus_mhz: Vec<u64>,
    pub siblings: usize,
    pub cpu_cores: usize,
}

/// The mathematical content of a `CPU`.
pub struct CPUV {
    pub physical_id: usize,
    pub model_name: Seq<char>,
    pub cpus_mhz: Seq<u64>,
    pub siblings: usize,
    pub cpu_cores: usize,
}

impl View for CPU {
    type V = CPUV;

    open spec fn view(&self) -> CPUV {
        CPUV {
            physical_id: self.physical_id,
            model_name: self.model_name@,
            cpus_mhz: self.cpus_mhz@,
            siblings: self.siblings,
            cpu_cores: self.cpu_cores,
        }
    }
}

/// The views of a sequence of packages.
pub open spec fn cpu_views(s: Seq<CPU>) -> Seq<CPUV> {
    s.map_values(|c: CPU| c@)
}

/// Every record of a decoded topology is complete (one clock reading per
/// sibling) and no two records share a physical id.
pub open spec fn spec_get_cpus_ok(cpus: Seq<CPU>) -> bool {
    (forall|i: int|
        0 <= i < cpus.len() ==> (#[trigger] cpus[i])@.cpus_mhz.len() == cpus[i]@.siblings)
        && (forall|i: int, j: int|
        0 <= i < j < cpus.len() ==> (#[trigger] cpus[i])@.physical_id != (#[trigger] cpus[j])@.physical_id)
}

/// The label bytes of the model-name line.  Reads "model name".
pub open spec fn model_label() -> Seq<u8> {
    seq![109u8, 111, 100, 101, 108, 32, 110, 97, 109, 101]
}

/// The label bytes of the clock line.  Reads "cpu MHz".
pub open spec fn mhz_label() -> Seq<u8> {
    seq![99u8, 112, 117, 32, 77, 72, 122]
}

/// The label bytes of the package-id line.  Reads "physical id".
pub open spec fn phys_label() -> Seq<u8> {
    seq![112u8, 104, 121, 115, 105, 99, 97, 108, 32, 105, 100]
}

/// The label bytes of the sibling-count line.  Reads "siblings".
pub open spec fn siblings_label() -> Seq<u8> {
    seq![115u8, 105, 98, 108, 105, 110, 103, 115]
}

/// The label bytes of the core-count line.  Reads "cpu cores".
pub open spec fn cores_label() -> Seq<u8> {
    seq![99u8, 112, 117, 32, 99, 111, 114, 101, 115]
}

/// The start of the first line at or after `i` whose text begins with
/// `label`, or `None` when the input runs out first.
pub open spec fn spec_find_label_line(s: Seq<u8>, i: int, label: Seq<u8>) -> Option<int>
    decreases s.len() - i when 0 <= i <= s.len() via spec_find_label_line_decreases
{
    if i == s.len() {
        None
    } else if starts_with(s.subrange(i, span_until(s, i, 10)), label) {
        Some(i)
    } else {
        spec_find_label_line(s, after_line(s, i), label)
    }
}

#[via_fn]
proof fn spec_find_label_line_decreases(s: Seq<u8>, i: int, label: Seq<u8>) {
    lemma_span_until(s, i, 10);
}

/// A found line lies within the input, after where the search began.
proof fn lemma_find_label_line_bounds(s: Seq<u8>, i: int, label: Seq<u8>)
    requires
        0 <= i <= s.len(),
    ensures
        match spec_find_label_line(s, i, label) {
            Some(li) => i <= li < s.len(),
            None => true,
        },
    decreases s.len() - i,
{
    lemma_span_until(s, i, 10);
    if i < s.len() && !starts_with(s.subrange(i, span_until(s, i, 10)), label) {
        lemma_find_label_line_bounds(s, after_line(s, i), label);
    }
}

/// The end of a value trimmed from the right: the largest `e` at or
/// above `start` such that everything from `e` on is whitespace and the
/// byte before `e`, if any at or after `start`, is not.
pub open spec fn spec_rtrim(line: Seq<u8>, start: int, e: int) -> int
    decreases e - start when 0 <= start <= e
{
    if e <= start {
        start
    } else if crate::scan::is_space(line[e - 1]) {
        spec_rtrim(line, start, e - 1)
    } else {
        e
    }
}

/// The value carried by a labelled line: the bytes after the colon that
/// follows the label, trimmed of surrounding whitespace; a line without
/// that colon is malformed.
pub open spec fn spec_line_value(line: Seq<u8>, label_len: int) -> Result<Seq<u8>, ProbeError>
    recommends
        0 <= label_len <= line.len(),
{
    let c = span_until(line, label_len, 58);
    if c >= line.len() {
        Err(ProbeError::InvalidData)
    } else {
        let start = span_spaces(line, c + 1);
        let end = spec_rtrim(line, start, line.len() as int);
        Ok(line.subrange(start, end))
    }
}

/// What scanning from position `i` for the line labelled `label` yields:
/// nothing at end of input, otherwise the line's trimmed value and the
/// position after the line.
pub open spec fn spec_labeled_value(s: Seq<u8>, i: int, label: Seq<u8>) -> Result<
    Option<(Seq<u8>, int)>,
    ProbeError,
> {
    match spec_find_label_line(s, i, label) {
        None => Ok(None),
        Some(li) => {
            let line = s.subrange(li, span_until(s, li, 10));
            match spec_line_value(line, label.len() as int) {
                Err(e) => Err(e),
                Ok(vb) => Ok(Some((vb, after_line(s, li)))),
            }
        },
    }
}

/// A value read as an unsigned machine-word numeral.
pub open spec fn spec_usize_value(vb: Seq<u8>) -> Result<usize, ProbeError> {
    match spec_parse_u64(vb) {
        Ok(x) => if x <= usize::MAX as u64 {
            Ok(x as usize)
        } else {
            Err(ProbeError::InvalidData)
        },
        Err(e) => Err(e),
    }
}

/// The position after the blank line that ends the current block, or the
/// end of the input if no blank line is left.
pub open spec fn spec_skip_block(s: Seq<u8>, i: int) -> int
    decreases s.len() - i when 0 <= i <= s.len() via spec_skip_block_decreases
{
    if i == s.len() {
        s.len() as int
    } else if span_until(s, i, 10) == i {
        after_line(s, i)
    } else {
        spec_skip_block(s, after_line(s, i))
    }
}

#[via_fn]
proof fn spec_skip_block_decreases(s: Seq<u8>, i: int) {
    lemma_span_until(s, i, 10);
}

/// A block skip never moves backwards and stays within the input.
proof fn lemma_skip_block_bounds(s: Seq<u8>, i: int)
    requires
        0 <= i <= s.len(),
    ensures
        i <= spec_skip_block(s, i) <= s.len(),
    decreases s.len() - i,
{
    lemma_span_until(s, i, 10);
    if i < s.len() && span_until(s, i, 10) != i {
        lemma_skip_block_bounds(s, after_line(s, i));
    }
}

/// The decoder's running state: the fields of the package being
/// assembled and the ids already finalized.
pub struct TopoState {
    pub physical_id: usize,
    pub model_name: Seq<char>,
    pub cpus_mhz: Seq<u64>,
    pub siblings: usize,
    pub cpu_cores: usize,
    pub seen: Seq<usize>,
}

/// The state every decode starts from.
pub open spec fn initial_topo_state() -> TopoState {
    TopoState {
        physical_id: 0,
        model_name: Seq::empty(),
        cpus_mhz: Seq::empty(),
        siblings: 0,
        cpu_cores: 0,
        seen: Seq::empty(),
    }
}

/// Finalization at the end of a block: exactly when one clock reading
/// per sibling has been collected and the package was not finalized
/// before, the record is emitted and the working fields reset.
pub open spec fn spec_finalize(st: TopoState) -> (Option<CPUV>, TopoState) {
    if st.siblings == st.cpus_mhz.len() && !st.seen.contains(st.physical_id) {
        (
            Some(
                CPUV {
                    physical_id: st.physical_id,
                    model_name: st.model_name,
                    cpus_mhz: st.cpus_mhz,
                    siblings: st.siblings,
                    cpu_cores: st.cpu_cores,
                },
            ),
            TopoState {
                physical_id: 0,
                model_name: Seq::empty(),
                cpus_mhz: Seq::empty(),
                siblings: 0,
                cpu_cores: 0,
                seen: st.seen.push(st.physical_id),
            },
        )
    } else {
        (None, st)
    }
}

/// What decoding the blocks from position `i` onwards yields, carrying
/// the state `st`.  Per block: the model name (kept only if none is held
/// yet), the clock reading (accumulated), the physical id; an id already
/// finalized short-circuits the sibling and core fields, which otherwise
/// overwrite the held counts.  The block ends at its blank line, the
/// package is finalized per `spec_finalize`, and decoding continues.
/// End of input while looking for a model name ends the listing
/// normally; anywhere later in a block it is an error.
pub open spec fn spec_topo_blocks(s: Seq<u8>, i: int, st: TopoState) -> Result<
    Seq<CPUV>,
    ProbeError,
>
    decreases s.len() - i when 0 <= i <= s.len() via spec_topo_blocks_decreases
{
    match spec_labeled_value(s, i, model_label()) {
        Err(e) => Err(e),
        Ok(None) => Ok(Seq::empty()),
        Ok(Some((model_b, p1))) => {
            let st1 = TopoState {
                model_name: if st.model_name.len() == 0 {
                    ascii_view(model_b)
                } else {
                    st.model_name
                },
                ..st
            };
            match spec_labeled_value(s, p1, mhz_label()) {
                Err(e) => Err(e),
                Ok(None) => Err(ProbeError::UnexpectedEof),
                Ok(Some((mhz_b, p2))) => match spec_fixed_point(mhz_b, 3) {
                    Err(e) => Err(e),
                    Ok(mhz) => {
                        let st2 = TopoState { cpus_mhz: st1.cpus_mhz.push(mhz), ..st1 };
                        match spec_labeled_value(s, p2, phys_label()) {
                            Err(e) => Err(e),
                            Ok(None) => Err(ProbeError::UnexpectedEof),
                            Ok(Some((id_b, p3))) => match spec_usize_value(id_b) {
                                Err(e) => Err(e),
                                Ok(id) => {
                                    let st3 = TopoState { physical_id: id, ..st2 };
                                    if st3.seen.contains(id) {
                                        let fin = spec_finalize(st3);
                                        match spec_topo_blocks(
                                            s,
                                            spec_skip_block(s, p3),
                                            fin.1,
                                        ) {
                                            Err(e) => Err(e),
                                            Ok(rest) => match fin.0 {
                                                Some(c) => Ok(seq![c] + rest),
                                                None => Ok(rest),
                                            },
                                        }
                                    } else {
                                        match spec_labeled_value(s, p3, siblings_label()) {
                                            Err(e) => Err(e),
                                            Ok(None) => Err(ProbeError::UnexpectedEof),
                                            Ok(Some((sib_b, p4))) => match spec_usize_value(
                                                sib_b,
                                            ) {
                                                Err(e) => Err(e),
                                                Ok(sib) => {
                                                    match spec_labeled_value(
                                                        s,
                                                        p4,
                                                        cores_label(),
                                                    ) {
                                                        Err(e) => Err(e),
                                                        Ok(None) => Err(
                                                            ProbeError::UnexpectedEof,
                                                        ),
                                                        Ok(Some((cor_b, p5))) => {
                                                            match spec_usize_value(cor_b) {
                                                                Err(e) => Err(e),
                                                                Ok(cor) => {
                                                                    let fin = spec_finalize(
                                                                        TopoState {
                                                                            siblings: sib,
                                                                            cpu_cores: cor,
                                                                            ..st3
                                                                        },
                                                                    );
                                                                    match spec_topo_blocks(
                                                                        s,
                                                                        spec_skip_block(s, p5),
                                                                        fin.1,
                                                                    ) {
                                                                        Err(e) => Err(e),
                                                                        Ok(rest) => match fin.0 {
                                                                            Some(c) => Ok(
                                                                                seq![c] + rest,
                                                                            ),
                                                                            None => Ok(rest),
                                                                        },
                                                                    }
                                                                },
                                                            }
                                                        },
                                                    }
                                                },
                                            },
                                        }
                                    }
                                },
                            },
                        }
                    },
                },
            }
        },
    }
}

#[via_fn]
proof fn spec_topo_blocks_decreases(s: Seq<u8>, i: int, st: TopoState) {
    lemma_labeled_value_bounds(s, i, model_label());
    match spec_labeled_value(s, i, model_label()) {
        Ok(Some((_, p1))) => {
            lemma_labeled_value_bounds(s, p1, mhz_label());
            match spec_labeled_value(s, p1, mhz_label()) {
                Ok(Some((_, p2))) => {
                    lemma_labeled_value_bounds(s, p2, phys_label());
                    match spec_labeled_value(s, p2, phys_label()) {
                        Ok(Some((_, p3))) => {
                            lemma_skip_block_bounds(s, p3);
                            lemma_labeled_value_bounds(s, p3, siblings_label());
                            match spec_labeled_value(s, p3, siblings_label()) {
                                Ok(Some((_, p4))) => {
                                    lemma_labeled_value_bounds(s, p4, cores_label());
                                    match spec_labeled_value(s, p4, cores_label()) {
                                        Ok(Some((_, p5))) => {
                                            lemma_skip_block_bounds(s, p5);
                                        },
                                        _ => {},
                                    }
                                },
                                _ => {},
                            }
                        },
                        _ => {},
                    }
                },
                _ => {},
            }
        },
        _ => {},
    }
}

/// A found value moves the position strictly forward, within the input.
proof fn lemma_labeled_value_bounds(s: Seq<u8>, i: int, label: Seq<u8>)
    requires
        0 <= i <= s.len(),
    ensures
        match spec_labeled_value(s, i, label) {
            Ok(Some((_, p))) => i < p <= s.len(),
            _ => true,
        },
{
    lemma_find_label_line_bounds(s, i, label);
    match spec_find_label_line(s, i, label) {
        Some(li) => {
            lemma_span_until(s, li, 10);
        },
        None => {},
    }
}

/// What decoding the whole CPU description file yields.
pub open spec fn spec_parse_cpus(s: Seq<u8>) -> Result<Seq<CPUV>, ProbeError> {
    spec_topo_blocks(s, 0, initial_topo_state())
}

/// Records already finalized, followed by whatever the rest yields.
pub open spec fn prepend_cpus(vs: Seq<CPUV>, r: Result<Seq<CPUV>, ProbeError>) -> Result<
    Seq<CPUV>,
    ProbeError,
> {
    match r {
        Ok(rest) => Ok(vs + rest),
        Err(e) => Err(e),
    }
}

/// Whether `seen` holds `id`.
fn contains_id(seen: &Vec<usize>, id: usize) -> (r: bool)
    ensures
        r == seen@.contains(id),
{
    let mut k: usize = 0;
    while k < seen.len()
        invariant
            0 <= k <= seen@.len(),
            forall|j: int| 0 <= j < k ==> seen@[j] != id,
        decreases seen@.len() - k,
    {
        if seen[k] == id {
            return true;
        }
        k = k + 1;
    }
    false
}

/// The bytes of one field value: everything after the colon that follows
/// the label, with surrounding whitespace cut off.
fn value_after_colon(line: &Vec<u8>, label_len: usize) -> (r: Result<Vec<u8>, ProbeError>)
    requires
        label_len <= line@.len(),
    ensures
        match spec_line_value(line@, label_len as int) {
            Ok(vb) => r matches Ok(v) && v@ == vb,
            Err(e) => r == Err::<Vec<u8>, ProbeError>(e),
        },
{
    let ghost l = line@;
    proof {
        lemma_span_until(l, label_len as int, 58);
    }
    let mut c = label_len;
    while c < line.len() && line[c] != 58
        invariant
            label_len <= c <= line@.len(),
            line@ == l,
            span_until(l, label_len as int, 58) == span_until(l, c as int, 58),
            c <= span_until(l, c as int, 58),
        decreases line@.len() - c,
    {
        c = c + 1;
        proof {
            lemma_span_until(l, c as int, 58);
        }
    }
    if c == line.len() {
        return Err(ProbeError::InvalidData);
    }
    proof {
        lemma_span_spaces(l, c as int + 1);
    }
    let mut start = c + 1;
    while start < line.len() && space(line[start])
        invariant
            c < start <= line@.len(),
            line@ == l,
            span_spaces(l, c as int + 1) == span_spaces(l, start as int),
            start <= span_spaces(l, start as int),
        decreases line@.len() - start,
    {
        start = start + 1;
        proof {
            lemma_span_spaces(l, start as int);
        }
    }
    let mut end = line.len();
    while end > start && space(line[end - 1])
        invariant
            start <= end <= line@.len(),
            line@ == l,
            spec_rtrim(l, start as int, line@.len() as int) == spec_rtrim(
                l,
                start as int,
                end as int,
            ),
        decreases end,
    {
        end = end - 1;
    }
    let mut out: Vec<u8> = Vec::new();
    let mut k = start;
    while k < end
        invariant
            start <= k <= end <= line@.len(),
            line@ == l,
            out@ == l.subrange(start as int, k as int),
        decreases end - k,
    {
        let b = line[k];
        out.push(b);
        k = k + 1;
        proof {
            assert(out@ =~= l.subrange(start as int, k as int));
        }
    }
    Ok(out)
}

/// Scan lines for the next one whose text begins with `label`, and hand
/// back its trimmed value; at end of input there is none.
fn next_labeled_value(cur: &mut Cursor, label: &[u8]) -> (r: Result<Option<Vec<u8>>, ProbeError>)
    requires
        old(cur).wf(),
    ensures
        final(cur).wf(),
        final(cur).bytes() == old(cur).bytes(),
        old(cur).at() <= final(cur).at(),
        match spec_labeled_value(old(cur).bytes(), old(cur).at(), label@) {
            Err(e) => r == Err::<Option<Vec<u8>>, ProbeError>(e),
            Ok(None) => r == Ok::<Option<Vec<u8>>, ProbeError>(None) && final(cur).at() == old(
                cur,
            ).bytes().len(),
            Ok(Some((vb, p))) => r matches Ok(Some(v)) && v@ == vb && final(cur).at() == p,
        },
{
    loop
        invariant
            cur.wf(),
            cur.bytes() == old(cur).bytes(),
            old(cur).at() <= cur.at(),
            spec_labeled_value(old(cur).bytes(), old(cur).at(), label@) == spec_labeled_value(
                old(cur).bytes(),
                cur.at(),
                label@,
            ),
        decreases cur.bytes().len() - cur.at(),
    {
        let ghost s = cur.bytes();
        let ghost p = cur.at();
        proof {
            lemma_span_until(s, p, 10);
        }
        match cur.next_line_raw() {
            None => {
                return Ok(None);
            },
            Some(line) => {
                proof {
                    assert(line@ == s.subrange(p, span_until(s, p, 10)));
                }
                if tok_starts_with(&line, label) {
                    proof {
                        assert(spec_find_label_line(s, p, label@) == Some(p));
                    }
                    match value_after_colon(&line, label.len()) {
                        Err(e) => {
                            return Err(e);
                        },
                        Ok(v) => {
                            return Ok(Some(v));
                        },
                    }
                }
            },
        }
    }
}

/// Parse a value as an unsigned machine-word numeral.
fn parse_usize_value(v: &Vec<u8>) -> (r: Result<usize, ProbeError>)
    ensures
        r == spec_usize_value(v@),
{
    proof {
        assert(v@.subrange(0, v@.len() as int) =~= v@);
    }
    match parse_u64_from(v, 0) {
        Err(e) => Err(e),
        Ok(x) => {
            if x <= usize::MAX as u64 {
                Ok(x as usize)
            } else {
                Err(ProbeError::InvalidData)
            }
        },
    }
}

/// Skip to just past the blank line that ends the current block, or to
/// the end of the input.
fn skip_to_blank(cur: &mut Cursor)
    requires
        old(cur).wf(),
    ensures
        final(cur).wf(),
        final(cur).bytes() == old(cur).bytes(),
        final(cur).at() == spec_skip_block(old(cur).bytes(), old(cur).at()),
{
    loop
        invariant
            cur.wf(),
            cur.bytes() == old(cur).bytes(),
            spec_skip_block(old(cur).bytes(), old(cur).at()) == spec_skip_block(
                old(cur).bytes(),
                cur.at(),
            ),
        decreases cur.bytes().len() - cur.at(),
    {
        let ghost s = cur.bytes();
        let ghost p = cur.at();
        proof {
            lemma_span_until(s, p, 10);
        }
        match cur.next_line_raw() {
            None => {
                return ;
            },
            Some(line) => {
                if line.len() == 0 {
                    proof {
                        assert(span_until(s, p, 10) == p);
                    }
                    return ;
                }
            },
        }
    }
}

/// Decode the CPU topology from the contents of the CPU description
/// file.  Per logical-CPU block the model name, clock reading, physical
/// id, sibling count and core count are read in order; clock readings
/// accumulate per package, a block whose physical id was already
/// finalized contributes only its clock reading, and a package is
/// finalized exactly when one reading per sibling has been collected.
///
/// Every record of the result is complete and physical ids are pairwise
/// distinct: blocks sharing a physical id merge into one record.
#[verifier::rlimit(100)]
pub fn get_cpus(data: Vec<u8>) -> (r: Result<Vec<CPU>, ProbeError>)
    ensures
        match spec_parse_cpus(data@) {
            Ok(vs) => r matches Ok(cpus) && cpu_views(cpus@) == vs,
            Err(e) => r == Err::<Vec<CPU>, ProbeError>(e),
        },
        r matches Ok(cpus) ==> spec_get_cpus_ok(cpus@),
{
    let ghost s = data@;
    let ghost g = spec_parse_cpus(data@);
    let mut cur = Cursor::new(data);
    // "model name"
    let l_model: [u8; 10] = [109, 111, 100, 101, 108, 32, 110, 97, 109, 101];
    // "cpu MHz"
    let l_mhz: [u8; 7] = [99, 112, 117, 32, 77, 72, 122];
    // "physical id"
    let l_phys: [u8; 11] = [112, 104, 121, 115, 105, 99, 97, 108, 32, 105, 100];
    // "siblings"
    let l_sib: [u8; 8] = [115, 105, 98, 108, 105, 110, 103, 115];
    // "cpu cores"
    let l_cores: [u8; 9] = [99, 112, 117, 32, 99, 111, 114, 101, 115];
    proof {
        assert(l_model@ =~= model_label());
        assert(l_mhz@ =~= mhz_label());
        assert(l_phys@ =~= phys_label());
        assert(l_sib@ =~= siblings_label());
        assert(l_cores@ =~= cores_label());
    }
    let mut cpus: Vec<CPU> = Vec::new();
    let mut seen: Vec<usize> = Vec::new();
    let mut physical_id: usize = 0;
    let mut model_name = String::new();
    let mut cpus_mhz: Vec<u64> = Vec::new();
    let mut siblings: usize = 0;
    let mut cpu_cores: usize = 0;
    let mut done = false;
    proof {
        assert(cpu_views(cpus@) =~= Seq::<CPUV>::empty());
        assert(TopoState {
            physical_id: physical_id,
            model_name: model_name@,
            cpus_mhz: cpus_mhz@,
            siblings: siblings,
            cpu_cores: cpu_cores,
            seen: seen@,
        } == initial_topo_state());
    }
    while !done
        invariant
            cur.wf(),
            cur.bytes() == s,
            s == data@,
            l_model@ == model_label(),
            l_mhz@ == mhz_label(),
            l_phys@ == phys_label(),
            l_sib@ == siblings_label(),
            l_cores@ == cores_label(),
            g == spec_parse_cpus(s),
            !done ==> g == prepend_cpus(
                cpu_views(cpus@),
                spec_topo_blocks(
                    s,
                    cur.at(),
                    TopoState {
                        physical_id: physical_id,
                        model_name: model_name@,
                        cpus_mhz: cpus_mhz@,
                        siblings: siblings,
                        cpu_cores: cpu_cores,
                        seen: seen@,
                    },
                ),
            ),
            done ==> g == Ok::<Seq<CPUV>, ProbeError>(cpu_views(cpus@)),
            spec_get_cpus_ok(cpus@),
            forall|i: int| 0 <= i < cpus@.len() ==> seen@.contains((#[trigger] cpus@[i])@.physical_id),
        decreases s.len() - cur.at() + (if done { 0int } else { 1int }),
    {
        let ghost p0 = cur.at();
        let ghost st0 = TopoState {
            physical_id: physical_id,
            model_name: model_name@,
            cpus_mhz: cpus_mhz@,
            siblings: siblings,
            cpu_cores: cpu_cores,
            seen: seen@,
        };
        // model name: end of input here ends the listing normally
        match next_labeled_value(&mut cur, l_model.as_slice()) {
            Err(e) => {
                return Err(e);
            },
            Ok(None) => {
                proof {
                    assert(cpu_views(cpus@) + Seq::<CPUV>::empty() =~= cpu_views(cpus@));
                }
                done = true;
            },
            Ok(Some(v)) => {
                if model_name.as_str().unicode_len() == 0 {
                    model_name = bytes_to_string(&v);
                }
                // clock reading, collected for the current package
                let mhz = match next_labeled_value(&mut cur, l_mhz.as_slice()) {
                    Err(e) => {
                        return Err(e);
                    },
                    Ok(None) => {
                        return Err(ProbeError::UnexpectedEof);
                    },
                    Ok(Some(v)) => match parse_fixed_point(&v, 3) {
                        Err(e) => {
                            return Err(e);
                        },
                        Ok(x) => x,
                    },
                };
                cpus_mhz.push(mhz);
                // physical id: a finalized id short-circuits the block
                let id = match next_labeled_value(&mut cur, l_phys.as_slice()) {
                    Err(e) => {
                        return Err(e);
                    },
                    Ok(None) => {
                        return Err(ProbeError::UnexpectedEof);
                    },
                    Ok(Some(v)) => match parse_usize_value(&v) {
                        Err(e) => {
                            return Err(e);
                        },
                        Ok(x) => x,
                    },
                };
                physical_id = id;
                if !contains_id(&seen, physical_id) {
                    siblings = match next_labeled_value(&mut cur, l_sib.as_slice()) {
                        Err(e) => {
                            return Err(e);
                        },
                        Ok(None) => {
                            return Err(ProbeError::UnexpectedEof);
                        },
                        Ok(Some(v)) => match parse_usize_value(&v) {
                            Err(e) => {
                                return Err(e);
                            },
                            Ok(x) => x,
                        },
                    };
                    cpu_cores = match next_labeled_value(&mut cur, l_cores.as_slice()) {
                        Err(e) => {
                            return Err(e);
                        },
                        Ok(None) => {
                            return Err(ProbeError::UnexpectedEof);
                        },
                        Ok(Some(v)) => match parse_usize_value(&v) {
                            Err(e) => {
                                return Err(e);
                            },
                            Ok(x) => x,
                        },
                    };
                }
                let ghost p_fin = cur.at();
                let ghost st_fin = TopoState {
                    physical_id: physical_id,
                    model_name: model_name@,
                    cpus_mhz: cpus_mhz@,
                    siblings: siblings,
                    cpu_cores: cpu_cores,
                    seen: seen@,
                };
                let ghost pre_views = cpu_views(cpus@);
                // finalize the package once every sibling has reported
                if siblings == cpus_mhz.len() && !contains_id(&seen, physical_id) {
                    let cpu = CPU {
                        physical_id,
                        model_name,
                        cpus_mhz,
                        siblings,
                        cpu_cores,
                    };
                    proof {
                        assert(cpu@ == spec_finalize(st_fin).0->0);
                        assert(forall|i: int|
                            0 <= i < cpus@.len() ==> (#[trigger] cpus@[i])@.physical_id
                                != cpu@.physical_id);
                        assert(cpu_views(cpus@.push(cpu)) =~= cpu_views(cpus@) + seq![cpu@]);
                    }
                    let ghost pre_seen = seen@;
                    let ghost pre_cpus = cpus@;
                    cpus.push(cpu);
                    seen.push(physical_id);
                    proof {
                        assert forall|i: int| 0 <= i < cpus@.len() implies seen@.contains(
                            (#[trigger] cpus@[i])@.physical_id,
                        ) by {
                            let idv = cpus@[i]@.physical_id;
                            if i < cpus@.len() - 1 {
                                assert(cpus@[i] == pre_cpus[i]);
                                assert(pre_seen.contains(idv));
                                let j = choose|j: int|
                                    0 <= j < pre_seen.len() && pre_seen[j] == idv;
                                assert(seen@[j] == idv);
                            } else {
                                assert(seen@[seen@.len() - 1] == idv);
                            }
                        }
                    }
                    physical_id = 0;
                    model_name = String::new();
                    cpus_mhz = Vec::new();
                    siblings = 0;
                    cpu_cores = 0;
                    proof {
                        assert(TopoState {
                            physical_id: physical_id,
                            model_name: model_name@,
                            cpus_mhz: cpus_mhz@,
                            siblings: siblings,
                            cpu_cores: cpu_cores,
                            seen: seen@,
                        } == spec_finalize(st_fin).1);
                    }
                } else {
                    proof {
                        assert(spec_finalize(st_fin).0 is None);
                        assert(spec_finalize(st_fin).1 == st_fin);
                    }
                }
                // skip to the blank line that ends this block
                skip_to_blank(&mut cur);
                proof {
                    lemma_labeled_value_bounds(s, p0, model_label());
                    lemma_skip_block_bounds(s, p_fin);
                    let fin = spec_finalize(st_fin);
                    let rest = spec_topo_blocks(s, spec_skip_block(s, p_fin), fin.1);
                    match rest {
                        Ok(tail) => {
                            match fin.0 {
                                Some(c) => {
                                    assert(pre_views + (seq![c] + tail) =~= (pre_views + seq![c])
                                        + tail);
                                },
                                None => {},
                            }
                        },
                        Err(_) => {},
                    }
                }
            },
        }
    }
    Ok(cpus)
}

} // verus!
