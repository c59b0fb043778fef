//! The record layout of a copybook: its classified records, without
//! REDEFINES and condition entries, and the sizes of its groups and of
//! the whole.
use vstd::prelude::*;
use crate::entry::{
    copy_entry, count_occurs, counted_entries, data_entries, entry_views, parse_entries, EntryView,
    LineDebug,
};
use crate::field::{type_size, SizeOverflow, Type, TypeView};
use crate::patterns::CobolPatterns;
use crate::record::{classify, record_of, record_views, LineCobol, RecordView};
use crate::source::{split_statements, statements};

verus! {

/// The records of a sequence of entries.
pub open spec fn records_of(es: Seq<EntryView>) -> Seq<RecordView> {
    Seq::new(es.len(), |i: int| record_of(es[i]))
}

/// The records of a sequence of entries.
pub fn classify_all(es: &Vec<LineDebug>, pats: &CobolPatterns) -> (r: Vec<LineCobol>)
    requires
        pats.wf(),
    ensures
        record_views(r@) == records_of(entry_views(es@)),
{
    let mut out: Vec<LineCobol> = Vec::new();
    let mut i: usize = 0;
    while i < es.len()
        invariant
            pats.wf(),
            i <= es.len(),
            record_views(out@) =~= records_of(entry_views(es@)).take(i as int),
        decreases es.len() - i,
    {
        let r = classify(copy_entry(&es[i]), pats);
        assert(entry_views(es@)[i as int] == es@[i as int]@);
        let ghost before = record_views(out@);
        out.push(r);
        assert(record_views(out@) =~= before.push(r@));
        i += 1;
        assert(record_views(out@) =~= records_of(entry_views(es@)).take(i as int));
    }
    out
}

/// A copy of `t`.
pub fn copy_type(t: &Type) -> (r: Type)
    ensures
        r@ == t@,
{
    match t {
        Type::PICX((p, inside, b)) => Type::PICX((p.clone(), *inside, *b)),
        Type::PICXREDEFINES => Type::PICXREDEFINES,
        Type::PIC9((p, inside, b)) => Type::PIC9((p.clone(), *inside, *b)),
        Type::PIC9REDEFINES => Type::PIC9REDEFINES,
        Type::STRUCT => Type::STRUCT,
        Type::STRUCTREDEFINES => Type::STRUCTREDEFINES,
        Type::OCCURS => Type::OCCURS,
        Type::UNKNOWN => Type::UNKNOWN,
        Type::STRUCTSIZED(v) => Type::STRUCTSIZED(*v),
        Type::OCCURSSIZED(v) => Type::OCCURSSIZED(*v),
    }
}

/// A copy of `r`.
pub fn copy_record(r: &LineCobol) -> (c: LineCobol)
    ensures
        c@ == r@,
{
    LineCobol {
        pos: r.pos,
        name: r.name.clone(),
        occurs: r.occurs,
        field_type: copy_type(&r.field_type),
        field_type_original: r.field_type_original.clone(),
    }
}

/// The REDEFINES group that the records read so far are inside, if any.
#[derive(Clone, Copy)]
pub struct RedefinesState {
    pub active: bool,
    pub level: u32,
}

/// One record read under `st`, and whether it is kept: condition (88) and
/// renames (66) entries and REDEFINES items are left out; a REDEFINES group
/// is left out with every deeper record after it.
pub open spec fn redefines_step(st: RedefinesState, r: RecordView) -> (RedefinesState, bool) {
    if r.pos == 88 || r.pos == 66 {
        (st, false)
    } else {
        match r.field_type {
            TypeView::PICXREDEFINES => (st, false),
            TypeView::PIC9REDEFINES => (st, false),
            TypeView::STRUCTREDEFINES => (RedefinesState { active: true, level: r.pos }, false),
            _ => if st.active {
                if r.pos > st.level {
                    (st, false)
                } else {
                    (RedefinesState { active: false, level: 0 }, true)
                }
            } else {
                (st, true)
            },
        }
    }
}

/// The state after reading `rs`, and the records kept.
pub open spec fn filter_redefines(rs: Seq<RecordView>) -> (RedefinesState, Seq<RecordView>)
    decreases rs.len(),
{
    if rs.len() == 0 {
        (RedefinesState { active: false, level: 0 }, seq![])
    } else {
        let (st, kept) = filter_redefines(rs.drop_last());
        let (next, keep) = redefines_step(st, rs.last());
        (
            next,
            if keep {
                kept.push(rs.last())
            } else {
                kept
            },
        )
    }
}

pub fn redefines_step_exec(st: RedefinesState, r: &LineCobol) -> (res: (RedefinesState, bool))
    ensures
        res == redefines_step(st, r@),
{
    if r.pos == 88 || r.pos == 66 {
        return (st, false);
    }
    match r.field_type {
        Type::PICXREDEFINES => (st, false),
        Type::PIC9REDEFINES => (st, false),
        Type::STRUCTREDEFINES => (RedefinesState { active: true, level: r.pos }, false),
        _ => if st.active {
            if r.pos > st.level {
                (st, false)
            } else {
                (RedefinesState { active: false, level: 0 }, true)
            }
        } else {
            (st, true)
        },
    }
}

/// The records that `filter_redefines` keeps.
pub fn drop_redefines(rs: &Vec<LineCobol>) -> (r: Vec<LineCobol>)
    ensures
        record_views(r@) == filter_redefines(record_views(rs@)).1,
{
    let ghost all = record_views(rs@);
    let mut st = RedefinesState { active: false, level: 0 };
    let mut out: Vec<LineCobol> = Vec::new();
    let mut i: usize = 0;
    while i < rs.len()
        invariant
            i <= rs.len(),
            all == record_views(rs@),
            st == filter_redefines(all.take(i as int)).0,
            record_views(out@) == filter_redefines(all.take(i as int)).1,
        decreases rs.len() - i,
    {
        assert(all.take(i + 1).drop_last() =~= all.take(i as int));
        let (next, keep) = redefines_step_exec(st, &rs[i]);
        if keep {
            let ghost before = record_views(out@);
            out.push(copy_record(&rs[i]));
            assert(record_views(out@) =~= before.push(rs@[i as int]@));
        }
        st = next;
        i += 1;
    }
    assert(all.take(rs.len() as int) =~= all);
    out
}

/// The records of a filtered source: its statements, taken apart, with
/// their OCCURS counts, classified, without REDEFINES and condition
/// entries.
pub open spec fn layout_records(text: Seq<char>) -> Seq<RecordView> {
    filter_redefines(records_of(counted_entries(data_entries(statements(text))))).1
}

/// The records of a filtered source.
pub fn layout(text: &Vec<char>, pats: &CobolPatterns) -> (r: Vec<LineCobol>)
    requires
        pats.wf(),
    ensures
        record_views(r@) == layout_records(text@),
{
    let stmts = split_statements(text);
    let entries = parse_entries(&stmts, pats);
    let counted = count_occurs(&entries, pats);
    let records = classify_all(&counted, pats);
    drop_redefines(&records)
}

// ---------------------------------------------------------------------------
// Sizes
// ---------------------------------------------------------------------------

/// The bytes a record takes: its size times its OCCURS count (a count of
/// 0 counts once); 0 for a record without a size.
pub open spec fn record_weight(r: RecordView) -> nat {
    match type_size(r.field_type) {
        Some(s) => s * (if r.occurs == 0 {
            1nat
        } else {
            r.occurs as nat
        }),
        None => 0,
    }
}

/// The weight of a record where it fits in a `u32`.
pub fn record_weight_exec(r: &LineCobol, pats: &CobolPatterns) -> (w: Result<u32, SizeOverflow>)
    requires
        pats.wf(),
    ensures
        w matches Ok(v) ==> v == record_weight(r@),
        w is Err <==> record_weight(r@) > u32::MAX,
{
    let occ: u32 = if r.occurs == 0 {
        1
    } else {
        r.occurs
    };
    let size = r.field_type.size(pats);
    proof {
        match type_size(r.field_type@) {
            Some(s) => {
                assert(s * occ >= s) by (nonlinear_arith)
                    requires
                        occ >= 1,
                ;
            },
            None => {},
        }
    }
    match size {
        Err(_) => Err(SizeOverflow),
        Ok(None) => Ok(0),
        Ok(Some(s)) => match s.checked_mul(occ) {
            Some(v) => Ok(v),
            None => Err(SizeOverflow),
        },
    }
}

/// The summed weights of the records from `j` on while their level is
/// deeper than `level`.
pub open spec fn members_size(rs: Seq<RecordView>, level: u32, j: int) -> nat
    decreases rs.len() - j,
{
    if 0 <= j < rs.len() && rs[j].pos > level {
        record_weight(rs[j]) + members_size(rs, level, j + 1)
    } else {
        0
    }
}

/// A group or an OCCURS group.
pub open spec fn is_group(r: RecordView) -> bool {
    r.field_type is STRUCT || r.field_type is OCCURS
}

/// The size of the group at `i`: the summed weights of the deeper records
/// that follow it.
pub open spec fn group_size(rs: Seq<RecordView>, i: int) -> nat {
    members_size(rs, rs[i].pos, i + 1)
}

/// The group at `i` with its size.
pub open spec fn sized_group(rs: Seq<RecordView>, i: int) -> RecordView {
    RecordView {
        field_type: if rs[i].field_type is STRUCT {
            TypeView::STRUCTSIZED(group_size(rs, i) as u32)
        } else {
            TypeView::OCCURSSIZED(group_size(rs, i) as u32)
        },
        ..rs[i]
    }
}

/// The groups among the first `k` records, with their sizes.
pub open spec fn groups_upto(rs: Seq<RecordView>, k: int) -> Seq<RecordView>
    decreases k,
{
    if k <= 0 || k > rs.len() {
        seq![]
    } else {
        groups_upto(rs, k - 1) + if is_group(rs[k - 1]) {
            seq![sized_group(rs, k - 1)]
        } else {
            seq![]
        }
    }
}

/// The groups of a layout with their sizes.
pub open spec fn sized_groups(rs: Seq<RecordView>) -> Seq<RecordView> {
    groups_upto(rs, rs.len() as int)
}

/// Every group size fits in a `u32`.
pub open spec fn groups_fit(rs: Seq<RecordView>) -> bool {
    forall|i: int| 0 <= i < rs.len() && is_group(#[trigger] rs[i]) ==> group_size(rs, i) <= u32::MAX
}

/// The size of the group at `i`, where it fits in a `u32`.
pub fn group_size_exec(rs: &Vec<LineCobol>, i: usize, pats: &CobolPatterns) -> (r: Result<
    u32,
    SizeOverflow,
>)
    requires
        pats.wf(),
        i < rs.len(),
    ensures
        r matches Ok(v) ==> v == group_size(record_views(rs@), i as int),
        r is Err <==> group_size(record_views(rs@), i as int) > u32::MAX,
{
    let ghost all = record_views(rs@);
    let level = rs[i].pos;
    let mut total: u32 = 0;
    let mut j: usize = i + 1;
    while j < rs.len() && rs[j].pos > level
        invariant
            pats.wf(),
            i < j <= rs.len(),
            all == record_views(rs@),
            level == all[i as int].pos,
            total + members_size(all, level, j as int) == members_size(all, level, i + 1),
        decreases rs.len() - j,
    {
        assert(all[j as int] == rs@[j as int]@);
        let w = record_weight_exec(&rs[j], pats);
        match w {
            Err(_) => {
                return Err(SizeOverflow);
            },
            Ok(v) => {
                if v > u32::MAX - total {
                    return Err(SizeOverflow);
                }
                total = total + v;
            },
        }
        j += 1;
    }
    Ok(total)
}

/// The groups of a layout with their sizes, where every size fits in a
/// `u32`.
pub fn group_sizes(rs: &Vec<LineCobol>, pats: &CobolPatterns) -> (r: Result<
    Vec<LineCobol>,
    SizeOverflow,
>)
    requires
        pats.wf(),
    ensures
        r is Ok <==> groups_fit(record_views(rs@)),
        r matches Ok(v) ==> record_views(v@) == sized_groups(record_views(rs@)),
{
    let ghost all = record_views(rs@);
    let mut out: Vec<LineCobol> = Vec::new();
    let mut i: usize = 0;
    while i < rs.len()
        invariant
            pats.wf(),
            i <= rs.len(),
            all == record_views(rs@),
            record_views(out@) == groups_upto(all, i as int),
            forall|k: int|
                0 <= k < i && is_group(#[trigger] all[k]) ==> group_size(all, k) <= u32::MAX,
        decreases rs.len() - i,
    {
        assert(all[i as int] == rs@[i as int]@);
        let grouped = match rs[i].field_type {
            Type::STRUCT => true,
            Type::OCCURS => true,
            _ => false,
        };
        if grouped {
            let size = match group_size_exec(rs, i, pats) {
                Ok(v) => v,
                Err(e) => {
                    return Err(e);
                },
            };
            let field_type = match rs[i].field_type {
                Type::STRUCT => Type::STRUCTSIZED(size),
                _ => Type::OCCURSSIZED(size),
            };
            let ghost before = record_views(out@);
            out.push(
                LineCobol {
                    pos: rs[i].pos,
                    name: rs[i].name.clone(),
                    occurs: rs[i].occurs,
                    field_type,
                    field_type_original: rs[i].field_type_original.clone(),
                },
            );
            assert(record_views(out@) =~= before.push(sized_group(all, i as int)));
        }
        i += 1;
    }
    Ok(out)
}

/// The summed weights of all records.
pub open spec fn weights_sum(rs: Seq<RecordView>) -> nat
    decreases rs.len(),
{
    if rs.len() == 0 {
        0
    } else {
        weights_sum(rs.drop_last()) + record_weight(rs.last())
    }
}

proof fn lemma_weights_sum_prefix(rs: Seq<RecordView>, k: int)
    requires
        0 <= k <= rs.len(),
    ensures
        weights_sum(rs.take(k)) <= weights_sum(rs),
    decreases rs.len() - k,
{
    if k < rs.len() {
        lemma_weights_sum_prefix(rs, k + 1);
        assert(rs.take(k + 1).drop_last() =~= rs.take(k));
    } else {
        assert(rs.take(k) =~= rs);
    }
}

/// The size of the whole layout, where it fits in a `u32`.
pub fn total_size(rs: &Vec<LineCobol>, pats: &CobolPatterns) -> (r: Result<u32, SizeOverflow>)
    requires
        pats.wf(),
    ensures
        r matches Ok(v) ==> v == weights_sum(record_views(rs@)),
        r is Err <==> weights_sum(record_views(rs@)) > u32::MAX,
{
    let ghost all = record_views(rs@);
    let mut total: u32 = 0;
    let mut i: usize = 0;
    while i < rs.len()
        invariant
            pats.wf(),
            i <= rs.len(),
            all == record_views(rs@),
            total == weights_sum(all.take(i as int)),
        decreases rs.len() - i,
    {
        assert(all.take(i + 1).drop_last() =~= all.take(i as int));
        assert(all.take(i + 1).last() == rs@[i as int]@);
        let w = record_weight_exec(&rs[i], pats);
        proof {
            lemma_weights_sum_prefix(all, i + 1);
        }
        match w {
            Err(_) => {
                return Err(SizeOverflow);
            },
            Ok(v) => {
                if v > u32::MAX - total {
                    return Err(SizeOverflow);
                }
                total = total + v;
            },
        }
        i += 1;
    }
    assert(all.take(rs.len() as int) =~= all);
    Ok(total)
}

/// The number of unknown records.
pub open spec fn unknown_count(rs: Seq<RecordView>) -> nat
    decreases rs.len(),
{
    if rs.len() == 0 {
        0
    } else {
        unknown_count(rs.drop_last()) + if rs.last().field_type is UNKNOWN {
            1nat
        } else {
            0nat
        }
    }
}

/// The number of unknown records.
pub fn count_unknown(rs: &Vec<LineCobol>) -> (r: usize)
    ensures
        r == unknown_count(record_views(rs@)),
{
    let ghost all = record_views(rs@);
    let mut n: usize = 0;
    let mut i: usize = 0;
    while i < rs.len()
        invariant
            i <= rs.len(),
            n <= i,
            all == record_views(rs@),
            n == unknown_count(all.take(i as int)),
        decreases rs.len() - i,
    {
        assert(all.take(i + 1).drop_last() =~= all.take(i as int));
        assert(all.take(i + 1).last() == rs@[i as int]@);
        if let Type::UNKNOWN = rs[i].field_type {
            n += 1;
        }
        i += 1;
    }
    assert(all.take(rs.len() as int) =~= all);
    n
}

/// The size limit of a record in RM/COBOL.
pub const RM_COBOL_LIMIT: u32 = 65280;

/// A sized group larger than the RM/COBOL limit.
pub open spec fn exceeds_limit(r: RecordView) -> bool {
    match r.field_type {
        TypeView::STRUCTSIZED(v) => v > RM_COBOL_LIMIT,
        TypeView::OCCURSSIZED(v) => v > RM_COBOL_LIMIT,
        _ => false,
    }
}

/// The records of `rs` that `exceeds_limit` accepts, in order.
pub open spec fn over_limit(rs: Seq<RecordView>) -> Seq<RecordView>
    decreases rs.len(),
{
    if rs.len() == 0 {
        seq![]
    } else {
        over_limit(rs.drop_last()) + if exceeds_limit(rs.last()) {
            seq![rs.last()]
        } else {
            seq![]
        }
    }
}

/// The sized groups larger than the RM/COBOL limit.
pub fn records_over_limit(rs: &Vec<LineCobol>) -> (r: Vec<LineCobol>)
    ensures
        record_views(r@) == over_limit(record_views(rs@)),
{
    let ghost all = record_views(rs@);
    let mut out: Vec<LineCobol> = Vec::new();
    let mut i: usize = 0;
    while i < rs.len()
        invariant
            i <= rs.len(),
            all == record_views(rs@),
            record_views(out@) == over_limit(all.take(i as int)),
        decreases rs.len() - i,
    {
        assert(all.take(i + 1).drop_last() =~= all.take(i as int));
        assert(all.take(i + 1).last() == rs@[i as int]@);
        let exceeds = match rs[i].field_type {
            Type::STRUCTSIZED(v) => v > RM_COBOL_LIMIT,
            Type::OCCURSSIZED(v) => v > RM_COBOL_LIMIT,
            _ => false,
        };
        if exceeds {
            let ghost before = record_views(out@);
            out.push(copy_record(&rs[i]));
            assert(record_views(out@) =~= before.push(rs@[i as int]@));
        }
        i += 1;
    }
    assert(all.take(rs.len() as int) =~= all);
    out
}

} // verus!
