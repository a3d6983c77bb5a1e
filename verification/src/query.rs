//! The query compiler: from a list of triple patterns to one SQL statement
//! that joins the quad table with itself, once for each pattern.

use crate::tap::{QuadQuery, QuadQueryView, QueryId, QueryIdView, QueryObject, QueryObjectView};
use crate::cache::EntityCache;
use crate::text::{
    decimal, escape, escape_quotes, i32_to_string, lemma_str_lt_order, str_lt, string_lt,
    usize_to_string,
};
use vstd::prelude::*;
use vstd::string::StringExecFns;

verus! {

/// The columns of the quad table that a pattern can constrain.
#[derive(Clone, Copy)]
pub enum Field {
    QuadId,
    PredicateId,
    AttributeId,
    TypeId,
    Object,
    Language,
}

/// A column of one of the joined copies of the quad table: copy `row` is the
/// one for the pattern at index `row`.
#[derive(Clone, Copy)]
pub struct Column {
    pub row: usize,
    pub field: Field,
}

/// The columns that one placeholder binds, in the order of the patterns.
pub struct Group {
    pub key: String,
    pub columns: Vec<Column>,
}

/// A column that must hold the id of an IRI.
pub struct Check {
    pub column: Column,
    pub iri: String,
}

/// A column that must hold the id of one of several IRIs.
pub struct CheckAny {
    pub column: Column,
    pub iris: Vec<String>,
}

/// A text column that must hold a given text.
pub struct Literal {
    pub column: Column,
    pub value: String,
}

pub struct GroupView {
    pub key: Seq<char>,
    pub columns: Seq<Column>,
}

pub struct CheckView {
    pub column: Column,
    pub iri: Seq<char>,
}

pub struct CheckAnyView {
    pub column: Column,
    pub iris: Seq<Seq<char>>,
}

pub struct LiteralView {
    pub column: Column,
    pub value: Seq<char>,
}

impl DeepView for Group {
    type V = GroupView;

    open spec fn deep_view(&self) -> GroupView {
        GroupView { key: self.key@, columns: self.columns@ }
    }
}

impl DeepView for Check {
    type V = CheckView;

    open spec fn deep_view(&self) -> CheckView {
        CheckView { column: self.column, iri: self.iri@ }
    }
}

impl DeepView for CheckAny {
    type V = CheckAnyView;

    open spec fn deep_view(&self) -> CheckAnyView {
        CheckAnyView { column: self.column, iris: self.iris.deep_view() }
    }
}

impl DeepView for Literal {
    type V = LiteralView;

    open spec fn deep_view(&self) -> LiteralView {
        LiteralView { column: self.column, value: self.value@ }
    }
}

/// What a list of patterns asks of the joined table.
pub struct PlanView {
    /// How many copies of the quad table are joined.
    pub quad_count: nat,
    /// The placeholders, in ascending order of their keys.
    pub placeholders: Seq<GroupView>,
    pub checks: Seq<CheckView>,
    pub checks_any: Seq<CheckAnyView>,
    pub others: Seq<LiteralView>,
}

/// The plan of the empty list of patterns.
pub open spec fn empty_plan() -> PlanView {
    PlanView {
        quad_count: 0,
        placeholders: Seq::empty(),
        checks: Seq::empty(),
        checks_any: Seq::empty(),
        others: Seq::empty(),
    }
}

/// `groups` after `column` has been bound to the placeholder `key`: the
/// column joins the group of that key, or opens a new group at the place that
/// keeps the keys ascending.
pub open spec fn bind_column(groups: Seq<GroupView>, key: Seq<char>, column: Column) -> Seq<
    GroupView,
>
    decreases groups.len(),
{
    if groups.len() == 0 {
        seq![GroupView { key, columns: seq![column] }]
    } else if str_lt(groups.last().key, key) {
        groups.push(GroupView { key, columns: seq![column] })
    } else if groups.last().key == key {
        groups.drop_last().push(GroupView { key, columns: groups.last().columns.push(column) })
    } else {
        bind_column(groups.drop_last(), key, column).push(groups.last())
    }
}

/// The plan after one more position, `column`, with what is asked of it.
pub open spec fn add_id(plan: PlanView, column: Column, id: QueryIdView) -> PlanView {
    match id {
        QueryIdView::Value(iri) => PlanView {
            checks: plan.checks.push(CheckView { column, iri }),
            ..plan
        },
        QueryIdView::Placeholder(key) => PlanView {
            placeholders: bind_column(plan.placeholders, key, column),
            ..plan
        },
        QueryIdView::Any(iris) => PlanView {
            checks_any: plan.checks_any.push(CheckAnyView { column, iris }),
            ..plan
        },
        QueryIdView::Ignore => plan,
    }
}

/// The plan after one more text column with the text it must hold.
pub open spec fn add_literal(plan: PlanView, column: Column, value: Seq<char>) -> PlanView {
    PlanView { others: plan.others.push(LiteralView { column, value }), ..plan }
}

/// The plan after the object of the pattern at index `row`.
pub open spec fn add_object(plan: PlanView, row: usize, object: QueryObjectView) -> PlanView {
    match object {
        QueryObjectView::Id(id) => add_id(plan, Column { row, field: Field::AttributeId }, id),
        QueryObjectView::Object { value, type_id } => add_id(
            add_literal(plan, Column { row, field: Field::Object }, value),
            Column { row, field: Field::TypeId },
            type_id,
        ),
        QueryObjectView::LanguageString { value, language } => add_literal(
            add_literal(plan, Column { row, field: Field::Object }, value),
            Column { row, field: Field::Language },
            language,
        ),
    }
}

/// The plan after the pattern at index `row`: its subject constrains the
/// graph key, its predicate the predicate, its object the rest.
pub open spec fn add_pattern(plan: PlanView, row: usize, pattern: QuadQueryView) -> PlanView {
    let after_subject = add_id(plan, Column { row, field: Field::QuadId }, pattern.0);
    let after_predicate = add_id(
        after_subject,
        Column { row, field: Field::PredicateId },
        pattern.1,
    );
    PlanView { quad_count: (row + 1) as nat, ..add_object(after_predicate, row, pattern.2) }
}

/// The plan of a list of patterns.
pub open spec fn plan_of(query: Seq<QuadQueryView>) -> PlanView
    decreases query.len(),
{
    if query.len() == 0 {
        empty_plan()
    } else {
        add_pattern(plan_of(query.drop_last()), (query.len() - 1) as usize, query.last())
    }
}

/// Whether a position asks for one of no IRIs at all.
pub open spec fn is_empty_any(id: QueryIdView) -> bool {
    id matches QueryIdView::Any(iris) && iris.len() == 0
}

/// Whether some position of the pattern asks for one of no IRIs.
pub open spec fn pattern_has_empty_any(pattern: QuadQueryView) -> bool {
    ||| is_empty_any(pattern.0)
    ||| is_empty_any(pattern.1)
    ||| (pattern.2 matches QueryObjectView::Id(id) && is_empty_any(id))
    ||| (pattern.2 matches QueryObjectView::Object { type_id, .. } && is_empty_any(type_id))
}

/// Whether some position of some pattern asks for one of no IRIs: such a
/// query has no answers.
pub open spec fn has_empty_any(query: Seq<QuadQueryView>) -> bool {
    exists|i: int| 0 <= i < query.len() && pattern_has_empty_any(#[trigger] query[i])
}

/// A copy of a list of strings.
pub fn clone_strings(list: &Vec<String>) -> (copy: Vec<String>)
    ensures
        copy.deep_view() == list.deep_view(),
{
    let mut copy: Vec<String> = Vec::new();
    let mut i: usize = 0;
    while i < list.len()
        invariant
            i <= list.len(),
            copy.len() == i,
            forall|j: int| 0 <= j < i ==> (#[trigger] copy@[j])@ == list@[j]@,
        decreases list.len() - i,
    {
        copy.push(list[i].clone());
        i += 1;
    }
    assert(copy.deep_view() =~= list.deep_view());
    copy
}

/// A compiled query. Every group of `placeholders` holds at least one column.
pub struct QueryPlan {
    quad_count: usize,
    placeholders: Vec<Group>,
    checks: Vec<Check>,
    checks_any: Vec<CheckAny>,
    others: Vec<Literal>,
}

/// Whether every group binds a column.
pub open spec fn groups_bound(groups: Seq<GroupView>) -> bool {
    forall|i: int| 0 <= i < groups.len() ==> (#[trigger] groups[i]).columns.len() > 0
}

proof fn lemma_bind_column_bound(groups: Seq<GroupView>, key: Seq<char>, column: Column)
    requires
        groups_bound(groups),
    ensures
        groups_bound(bind_column(groups, key, column)),
    decreases groups.len(),
{
    if groups.len() > 0 && !str_lt(groups.last().key, key) && groups.last().key != key {
        let front = groups.drop_last();
        assert forall|i: int| 0 <= i < front.len() implies (#[trigger] front[i]).columns.len()
            > 0 by {
            assert(front[i] == groups[i]);
        }
        lemma_bind_column_bound(front, key, column);
    }
}

impl View for QueryPlan {
    type V = PlanView;

    closed spec fn view(&self) -> PlanView {
        PlanView {
            quad_count: self.quad_count as nat,
            placeholders: self.placeholders.deep_view(),
            checks: self.checks.deep_view(),
            checks_any: self.checks_any.deep_view(),
            others: self.others.deep_view(),
        }
    }
}

impl QueryPlan {
    /// Whether every placeholder of the plan binds a column. Every compiled
    /// plan is so.
    pub closed spec fn wf(&self) -> bool {
        groups_bound(self.placeholders.deep_view())
    }

    fn empty() -> (plan: QueryPlan)
        ensures
            plan@ == empty_plan(),
            plan.wf(),
    {
        let plan = QueryPlan {
            quad_count: 0,
            placeholders: Vec::new(),
            checks: Vec::new(),
            checks_any: Vec::new(),
            others: Vec::new(),
        };
        assert(plan.placeholders.deep_view() =~= Seq::<GroupView>::empty());
        assert(plan.checks.deep_view() =~= Seq::<CheckView>::empty());
        assert(plan.checks_any.deep_view() =~= Seq::<CheckAnyView>::empty());
        assert(plan.others.deep_view() =~= Seq::<LiteralView>::empty());
        plan
    }

    /// Adds what `id` asks of `column`, unless it asks for one of no IRIs.
    fn add_id(&mut self, column: Column, id: &QueryId) -> (more: bool)
        requires
            old(self).wf(),
        ensures
            final(self).wf(),
            more == !is_empty_any(id@),
            more ==> final(self)@ == add_id(old(self)@, column, id@),
    {
        match id {
            QueryId::Value(iri) => {
                self.checks.push(Check { column, iri: iri.clone() });
                assert(self.checks.deep_view() =~= old(self).checks.deep_view().push(
                    CheckView { column, iri: iri@ },
                ));
                true
            },
            QueryId::Placeholder(key) => {
                proof {
                    lemma_bind_column_bound(self.placeholders.deep_view(), key@, column);
                }
                bind(&mut self.placeholders, key, column);
                true
            },
            QueryId::Any(iris) => {
                if iris.len() == 0 {
                    assert(iris.deep_view().len() == 0);
                    return false;
                }
                assert(iris.deep_view().len() == iris@.len());
                self.checks_any.push(CheckAny { column, iris: clone_strings(iris) });
                assert(self.checks_any.deep_view() =~= old(self).checks_any.deep_view().push(
                    CheckAnyView { column, iris: iris.deep_view() },
                ));
                true
            },
            QueryId::Ignore => true,
        }
    }

    /// Adds the text that `column` must hold.
    fn add_literal(&mut self, column: Column, value: &String)
        requires
            old(self).wf(),
        ensures
            final(self).wf(),
            final(self)@ == add_literal(old(self)@, column, value@),
    {
        self.others.push(Literal { column, value: value.clone() });
        assert(self.others.deep_view() =~= old(self).others.deep_view().push(
            LiteralView { column, value: value@ },
        ));
    }

    /// Adds the pattern at index `row`, unless one of its positions asks for
    /// one of no IRIs.
    fn add_pattern(&mut self, row: usize, pattern: &QuadQuery) -> (more: bool)
        requires
            old(self).wf(),
            row < usize::MAX,
        ensures
            final(self).wf(),
            more == !pattern_has_empty_any(pattern@),
            more ==> final(self)@ == add_pattern(old(self)@, row, pattern@),
    {
        if !self.add_id(Column { row, field: Field::QuadId }, &pattern.0) {
            return false;
        }
        if !self.add_id(Column { row, field: Field::PredicateId }, &pattern.1) {
            return false;
        }
        match &pattern.2 {
            QueryObject::Id(id) => {
                if !self.add_id(Column { row, field: Field::AttributeId }, id) {
                    return false;
                }
            },
            QueryObject::Object { value, type_id } => {
                self.add_literal(Column { row, field: Field::Object }, value);
                if !self.add_id(Column { row, field: Field::TypeId }, type_id) {
                    return false;
                }
            },
            QueryObject::LanguageString { value, language } => {
                self.add_literal(Column { row, field: Field::Object }, value);
                self.add_literal(Column { row, field: Field::Language }, language);
            },
        }
        self.quad_count = row + 1;
        true
    }

    /// Compiles a list of patterns. There is no plan where a position asks for
    /// one of no IRIs: the query then has no answers, and nothing needs to be
    /// sent to the database.
    pub fn compile(query: &Vec<QuadQuery>) -> (plan: Option<QueryPlan>)
        ensures
            plan is None <==> has_empty_any(query.deep_view()),
            plan matches Some(p) ==> p.wf() && p@ == plan_of(query.deep_view()),
    {
        let ghost patterns = query.deep_view();
        let mut plan = QueryPlan::empty();
        let mut i: usize = 0;
        assert(patterns.take(0) =~= Seq::<QuadQueryView>::empty());
        while i < query.len()
            invariant
                i <= query.len(),
                patterns == query.deep_view(),
                plan.wf(),
                plan@ == plan_of(patterns.take(i as int)),
                forall|j: int| 0 <= j < i ==> !pattern_has_empty_any(#[trigger] patterns[j]),
            decreases query.len() - i,
        {
            assert(patterns[i as int] == query@[i as int]@);
            if !plan.add_pattern(i, &query[i]) {
                return None;
            }
            proof {
                let next = patterns.take(i + 1);
                assert(next.drop_last() == patterns.take(i as int));
                assert(next.last() == patterns[i as int]);
            }
            i += 1;
        }
        assert(patterns.take(i as int) == patterns);
        Some(plan)
    }
}

/// Binds `column` to the placeholder `key`.
fn bind(groups: &mut Vec<Group>, key: &String, column: Column)
    ensures
        final(groups).deep_view() == bind_column(old(groups).deep_view(), key@, column),
{
    let ghost before = groups.deep_view();
    let mut i: usize = groups.len();
    assert(before.take(i as int) == before);
    assert(before + before.skip(i as int) =~= before);
    while i > 0 && !string_lt(groups[i - 1].key.as_str(), key.as_str())
        invariant
            i <= groups.len(),
            before == old(groups).deep_view(),
            groups.deep_view() == before,
            bind_column(before, key@, column) == bind_column(before.take(i as int), key@, column)
                + before.skip(i as int),
        decreases i,
    {
        let ghost front = before.take(i as int);
        assert(front.last() == before[i - 1]);
        assert(before[i - 1] == groups@[i - 1].deep_view());
        assert(front.drop_last() == before.take(i - 1));
        if groups[i - 1].key == *key {
            assert(bind_column(front, key@, column) == front.drop_last().push(
                GroupView { key: key@, columns: front.last().columns.push(column) },
            ));
            let mut group = groups.remove(i - 1);
            group.columns.push(column);
            groups.insert(i - 1, group);
            assert(groups.deep_view() =~= front.drop_last().push(
                GroupView { key: key@, columns: front.last().columns.push(column) },
            ) + before.skip(i as int));
            return ;
        }
        assert(before.take(i - 1).push(before[i - 1]) + before.skip(i as int) =~= before.take(
            i - 1,
        ) + before.skip(i - 1));
        i -= 1;
    }
    proof {
        if i > 0 {
            assert(before.take(i as int).last() == before[i - 1]);
        }
    }
    let mut columns: Vec<Column> = Vec::new();
    columns.push(column);
    groups.insert(i, Group { key: key.clone(), columns });
    assert(groups.deep_view() =~= before.take(i as int).push(
        GroupView { key: key@, columns: seq![column] },
    ) + before.skip(i as int));
}

/// The name of a column of the quad table.
pub open spec fn field_name(field: Field) -> Seq<char> {
    match field {
        Field::QuadId => "quad_id"@,
        Field::PredicateId => "predicate_id"@,
        Field::AttributeId => "attribute_id"@,
        Field::TypeId => "type_id"@,
        Field::Object => "object"@,
        Field::Language => "language"@,
    }
}

/// How a column is written in the statement: `quad_`, the index of the
/// pattern, a dot, the name of the column.
pub open spec fn column_name(column: Column) -> Seq<char> {
    "quad_"@ + decimal(column.row as int) + "."@ + field_name(column.field)
}

/// The select list: the first column of each placeholder, separated by commas.
pub open spec fn select_list(groups: Seq<GroupView>) -> Seq<char>
    decreases groups.len(),
{
    if groups.len() == 0 {
        Seq::empty()
    } else if groups.len() == 1 {
        column_name(groups[0].columns[0])
    } else {
        select_list(groups.drop_last()) + ", "@ + column_name(groups.last().columns[0])
    }
}

/// One copy of the quad table under its alias.
pub open spec fn from_item(row: int) -> Seq<char> {
    "quad quad_"@ + decimal(row)
}

/// The from list: `count` copies of the quad table, separated by commas.
pub open spec fn from_list(count: nat) -> Seq<char>
    decreases count,
{
    if count == 0 {
        Seq::empty()
    } else if count == 1 {
        from_item(0)
    } else {
        from_list((count - 1) as nat) + ", "@ + from_item(count - 1)
    }
}

/// The condition that a text column holds a text, quotes doubled.
pub open spec fn literal_clause(literal: LiteralView) -> Seq<char> {
    "and "@ + column_name(literal.column) + " = '"@ + escape_quotes(literal.value) + "' "@
}

pub open spec fn literals_text(others: Seq<LiteralView>) -> Seq<char>
    decreases others.len(),
{
    if others.len() == 0 {
        Seq::empty()
    } else {
        literals_text(others.drop_last()) + literal_clause(others.last())
    }
}

/// The condition that two columns are equal.
pub open spec fn equal_clause(a: Column, b: Column) -> Seq<char> {
    "and "@ + column_name(a) + " = "@ + column_name(b) + " "@
}

/// The conditions that make all columns of one placeholder equal: each is
/// equated with the next.
pub open spec fn chain_text(columns: Seq<Column>) -> Seq<char>
    decreases columns.len(),
{
    if columns.len() < 2 {
        Seq::empty()
    } else {
        chain_text(columns.drop_last()) + equal_clause(
            columns[columns.len() - 2],
            columns[columns.len() - 1],
        )
    }
}

pub open spec fn joins_text(groups: Seq<GroupView>) -> Seq<char>
    decreases groups.len(),
{
    if groups.len() == 0 {
        Seq::empty()
    } else {
        joins_text(groups.drop_last()) + chain_text(groups.last().columns)
    }
}

/// The condition that a column holds the id of an IRI.
pub open spec fn check_clause(check: CheckView, ids: Map<Seq<char>, i32>) -> Seq<char> {
    "and "@ + column_name(check.column) + " = "@ + decimal(ids[check.iri] as int) + " "@
}

pub open spec fn checks_text(checks: Seq<CheckView>, ids: Map<Seq<char>, i32>) -> Seq<char>
    decreases checks.len(),
{
    if checks.len() == 0 {
        Seq::empty()
    } else {
        checks_text(checks.drop_last(), ids) + check_clause(checks.last(), ids)
    }
}

/// The ids of a list of IRIs, separated by commas.
pub open spec fn id_list(iris: Seq<Seq<char>>, ids: Map<Seq<char>, i32>) -> Seq<char>
    decreases iris.len(),
{
    if iris.len() == 0 {
        Seq::empty()
    } else if iris.len() == 1 {
        decimal(ids[iris[0]] as int)
    } else {
        id_list(iris.drop_last(), ids) + ", "@ + decimal(ids[iris.last()] as int)
    }
}

/// The condition that a column holds the id of one of several IRIs.
pub open spec fn any_clause(check: CheckAnyView, ids: Map<Seq<char>, i32>) -> Seq<char> {
    "and "@ + column_name(check.column) + " in ("@ + id_list(check.iris, ids) + ") "@
}

pub open spec fn any_text(checks: Seq<CheckAnyView>, ids: Map<Seq<char>, i32>) -> Seq<char>
    decreases checks.len(),
{
    if checks.len() == 0 {
        Seq::empty()
    } else {
        any_text(checks.drop_last(), ids) + any_clause(checks.last(), ids)
    }
}

/// The statement of a plan, with each IRI written as its id in `ids`.
pub open spec fn sql_text(plan: PlanView, ids: Map<Seq<char>, i32>) -> Seq<char> {
    "select "@ + select_list(plan.placeholders) + " from "@ + from_list(plan.quad_count)
        + " where true "@ + literals_text(plan.others) + joins_text(plan.placeholders)
        + checks_text(plan.checks, ids) + any_text(plan.checks_any, ids)
}

/// Whether `ids` holds every IRI that the plan names.
pub open spec fn resolved(plan: PlanView, ids: Map<Seq<char>, i32>) -> bool {
    &&& forall|i: int| 0 <= i < plan.checks.len() ==> ids.contains_key((#[trigger] plan.checks[i]).iri)
    &&& forall|i: int, j: int|
        0 <= i < plan.checks_any.len() && 0 <= j < plan.checks_any[i].iris.len()
            ==> ids.contains_key(#[trigger] plan.checks_any[i].iris[j])
}

fn field_text(field: Field) -> (name: &'static str)
    ensures
        name@ == field_name(field),
{
    match field {
        Field::QuadId => "quad_id",
        Field::PredicateId => "predicate_id",
        Field::AttributeId => "attribute_id",
        Field::TypeId => "type_id",
        Field::Object => "object",
        Field::Language => "language",
    }
}

fn push_column(sql: &mut String, column: Column)
    ensures
        final(sql)@ == old(sql)@ + column_name(column),
{
    sql.append("quad_");
    sql.append(usize_to_string(column.row).as_str());
    sql.append(".");
    sql.append(field_text(column.field));
    assert(sql@ =~= old(sql)@ + column_name(column));
}

fn push_select_list(sql: &mut String, groups: &Vec<Group>)
    requires
        groups_bound(groups.deep_view()),
    ensures
        final(sql)@ == old(sql)@ + select_list(groups.deep_view()),
{
    let ghost view = groups.deep_view();
    let mut i: usize = 0;
    assert(view.take(0) =~= Seq::<GroupView>::empty());
    assert(sql@ =~= old(sql)@ + select_list(view.take(0)));
    while i < groups.len()
        invariant
            i <= groups.len(),
            view == groups.deep_view(),
            groups_bound(view),
            sql@ == old(sql)@ + select_list(view.take(i as int)),
        decreases groups.len() - i,
    {
        let ghost next = view.take(i + 1);
        assert(next.drop_last() == view.take(i as int));
        assert(next.last() == view[i as int]);
        assert(view[i as int].columns.len() > 0);
        assert(view[i as int].columns[0] == groups@[i as int].columns@[0]);
        if i != 0 {
            sql.append(", ");
        }
        push_column(sql, groups[i].columns[0]);
        assert(sql@ =~= old(sql)@ + select_list(next));
        i += 1;
    }
    assert(view.take(i as int) == view);
}

fn push_from_list(sql: &mut String, count: usize)
    ensures
        final(sql)@ == old(sql)@ + from_list(count as nat),
{
    let mut i: usize = 0;
    assert(sql@ =~= old(sql)@ + from_list(0));
    while i < count
        invariant
            i <= count,
            sql@ == old(sql)@ + from_list(i as nat),
        decreases count - i,
    {
        if i != 0 {
            sql.append(", ");
        }
        sql.append("quad quad_");
        sql.append(usize_to_string(i).as_str());
        assert(sql@ =~= old(sql)@ + from_list((i + 1) as nat));
        i += 1;
    }
}

fn push_literals(sql: &mut String, others: &Vec<Literal>)
    ensures
        final(sql)@ == old(sql)@ + literals_text(others.deep_view()),
{
    let ghost view = others.deep_view();
    let mut i: usize = 0;
    assert(view.take(0) =~= Seq::<LiteralView>::empty());
    assert(sql@ =~= old(sql)@ + literals_text(view.take(0)));
    while i < others.len()
        invariant
            i <= others.len(),
            view == others.deep_view(),
            sql@ == old(sql)@ + literals_text(view.take(i as int)),
        decreases others.len() - i,
    {
        let ghost next = view.take(i + 1);
        let ghost start = sql@;
        assert(next.drop_last() == view.take(i as int));
        assert(next.last() == view[i as int]);
        sql.append("and ");
        push_column(sql, others[i].column);
        sql.append(" = '");
        sql.append(escape(others[i].value.as_str()).as_str());
        sql.append("' ");
        assert(sql@ =~= start + literal_clause(view[i as int]));
        assert(sql@ =~= old(sql)@ + literals_text(next));
        i += 1;
    }
    assert(view.take(i as int) == view);
}

fn push_chain(sql: &mut String, columns: &Vec<Column>)
    ensures
        final(sql)@ == old(sql)@ + chain_text(columns@),
{
    let mut i: usize = 1;
    if columns.len() < 2 {
        assert(sql@ =~= old(sql)@ + chain_text(columns@));
        return ;
    }
    assert(sql@ =~= old(sql)@ + chain_text(columns@.take(1)));
    while i < columns.len()
        invariant
            1 <= i <= columns.len(),
            sql@ == old(sql)@ + chain_text(columns@.take(i as int)),
        decreases columns.len() - i,
    {
        let ghost next = columns@.take(i + 1);
        let ghost start = sql@;
        assert(next.drop_last() == columns@.take(i as int));
        sql.append("and ");
        push_column(sql, columns[i - 1]);
        sql.append(" = ");
        push_column(sql, columns[i]);
        sql.append(" ");
        assert(sql@ =~= start + equal_clause(columns@[i - 1], columns@[i as int]));
        assert(sql@ =~= old(sql)@ + chain_text(next));
        i += 1;
    }
    assert(columns@.take(i as int) == columns@);
}

fn push_joins(sql: &mut String, groups: &Vec<Group>)
    ensures
        final(sql)@ == old(sql)@ + joins_text(groups.deep_view()),
{
    let ghost view = groups.deep_view();
    let mut i: usize = 0;
    assert(view.take(0) =~= Seq::<GroupView>::empty());
    assert(sql@ =~= old(sql)@ + joins_text(view.take(0)));
    while i < groups.len()
        invariant
            i <= groups.len(),
            view == groups.deep_view(),
            sql@ == old(sql)@ + joins_text(view.take(i as int)),
        decreases groups.len() - i,
    {
        let ghost next = view.take(i + 1);
        assert(next.drop_last() == view.take(i as int));
        assert(next.last() == view[i as int]);
        push_chain(sql, &groups[i].columns);
        assert(sql@ =~= old(sql)@ + joins_text(next));
        i += 1;
    }
    assert(view.take(i as int) == view);
}

fn push_checks(sql: &mut String, checks: &Vec<Check>, cache: &EntityCache)
    requires
        forall|i: int|
            0 <= i < checks.len() ==> cache.ids().contains_key((#[trigger] checks.deep_view()[i]).iri),
    ensures
        final(sql)@ == old(sql)@ + checks_text(checks.deep_view(), cache.ids()),
{
    let ghost view = checks.deep_view();
    let ghost ids = cache.ids();
    let mut i: usize = 0;
    assert(view.take(0) =~= Seq::<CheckView>::empty());
    assert(sql@ =~= old(sql)@ + checks_text(view.take(0), ids));
    while i < checks.len()
        invariant
            i <= checks.len(),
            view == checks.deep_view(),
            ids == cache.ids(),
            forall|i: int| 0 <= i < view.len() ==> ids.contains_key((#[trigger] view[i]).iri),
            sql@ == old(sql)@ + checks_text(view.take(i as int), ids),
        decreases checks.len() - i,
    {
        let ghost next = view.take(i + 1);
        let ghost start = sql@;
        assert(next.drop_last() == view.take(i as int));
        assert(next.last() == view[i as int]);
        assert(ids.contains_key(view[i as int].iri));
        let id = cache.id_of(&checks[i].iri).unwrap();
        sql.append("and ");
        push_column(sql, checks[i].column);
        sql.append(" = ");
        sql.append(i32_to_string(id).as_str());
        sql.append(" ");
        assert(sql@ =~= start + check_clause(view[i as int], ids));
        assert(sql@ =~= old(sql)@ + checks_text(next, ids));
        i += 1;
    }
    assert(view.take(i as int) == view);
}

fn push_id_list(sql: &mut String, iris: &Vec<String>, cache: &EntityCache)
    requires
        forall|i: int| 0 <= i < iris.len() ==> cache.ids().contains_key(#[trigger] iris.deep_view()[i]),
    ensures
        final(sql)@ == old(sql)@ + id_list(iris.deep_view(), cache.ids()),
{
    let ghost view = iris.deep_view();
    let ghost ids = cache.ids();
    let mut i: usize = 0;
    assert(view.take(0) =~= Seq::<Seq<char>>::empty());
    assert(sql@ =~= old(sql)@ + id_list(view.take(0), ids));
    while i < iris.len()
        invariant
            i <= iris.len(),
            view == iris.deep_view(),
            ids == cache.ids(),
            forall|i: int| 0 <= i < view.len() ==> ids.contains_key(#[trigger] view[i]),
            sql@ == old(sql)@ + id_list(view.take(i as int), ids),
        decreases iris.len() - i,
    {
        let ghost next = view.take(i + 1);
        assert(next.drop_last() == view.take(i as int));
        assert(next.last() == view[i as int]);
        assert(ids.contains_key(view[i as int]));
        assert(view[i as int] == iris@[i as int]@);
        let id = cache.id_of(&iris[i]).unwrap();
        if i != 0 {
            sql.append(", ");
        }
        sql.append(i32_to_string(id).as_str());
        assert(sql@ =~= old(sql)@ + id_list(next, ids));
        i += 1;
    }
    assert(view.take(i as int) == view);
}

fn push_any(sql: &mut String, checks: &Vec<CheckAny>, cache: &EntityCache)
    requires
        forall|i: int, j: int|
            0 <= i < checks.len() && 0 <= j < checks.deep_view()[i].iris.len()
                ==> cache.ids().contains_key(#[trigger] checks.deep_view()[i].iris[j]),
    ensures
        final(sql)@ == old(sql)@ + any_text(checks.deep_view(), cache.ids()),
{
    let ghost view = checks.deep_view();
    let ghost ids = cache.ids();
    let mut i: usize = 0;
    assert(view.take(0) =~= Seq::<CheckAnyView>::empty());
    assert(sql@ =~= old(sql)@ + any_text(view.take(0), ids));
    while i < checks.len()
        invariant
            i <= checks.len(),
            view == checks.deep_view(),
            ids == cache.ids(),
            forall|i: int, j: int|
                0 <= i < view.len() && 0 <= j < view[i].iris.len() ==> ids.contains_key(
                    #[trigger] view[i].iris[j],
                ),
            sql@ == old(sql)@ + any_text(view.take(i as int), ids),
        decreases checks.len() - i,
    {
        let ghost next = view.take(i + 1);
        let ghost start = sql@;
        assert(next.drop_last() == view.take(i as int));
        assert(next.last() == view[i as int]);
        assert(view[i as int].iris == checks@[i as int].iris.deep_view());
        assert forall|j: int| 0 <= j < checks@[i as int].iris.len() implies ids.contains_key(
            #[trigger] checks@[i as int].iris.deep_view()[j],
        ) by {
            assert(ids.contains_key(view[i as int].iris[j]));
        }
        sql.append("and ");
        push_column(sql, checks[i].column);
        sql.append(" in (");
        push_id_list(sql, &checks[i].iris, cache);
        sql.append(") ");
        assert(sql@ =~= start + any_clause(view[i as int], ids));
        assert(sql@ =~= old(sql)@ + any_text(next, ids));
        i += 1;
    }
    assert(view.take(i as int) == view);
}

/// The IRIs of a list of checks, in order.
pub open spec fn check_iris(checks: Seq<CheckView>) -> Seq<Seq<char>>
    decreases checks.len(),
{
    if checks.len() == 0 {
        Seq::empty()
    } else {
        check_iris(checks.drop_last()).push(checks.last().iri)
    }
}

/// The IRIs of a list of any-of checks, in order.
pub open spec fn any_iris(checks: Seq<CheckAnyView>) -> Seq<Seq<char>>
    decreases checks.len(),
{
    if checks.len() == 0 {
        Seq::empty()
    } else {
        any_iris(checks.drop_last()) + checks.last().iris
    }
}

/// Every IRI that a plan names: those of its checks, then those of its any-of
/// checks.
pub open spec fn attributes_of(plan: PlanView) -> Seq<Seq<char>> {
    check_iris(plan.checks) + any_iris(plan.checks_any)
}

proof fn lemma_check_iris_has(checks: Seq<CheckView>, i: int)
    requires
        0 <= i < checks.len(),
    ensures
        check_iris(checks).contains(checks[i].iri),
    decreases checks.len(),
{
    let front = check_iris(checks.drop_last());
    if i == checks.len() - 1 {
        assert(front.push(checks.last().iri)[front.len() as int] == checks[i].iri);
    } else {
        lemma_check_iris_has(checks.drop_last(), i);
        let k = choose|k: int| 0 <= k < front.len() && front[k] == checks[i].iri;
        assert(front.push(checks.last().iri)[k] == checks[i].iri);
    }
}

proof fn lemma_any_iris_has(checks: Seq<CheckAnyView>, i: int, j: int)
    requires
        0 <= i < checks.len(),
        0 <= j < checks[i].iris.len(),
    ensures
        any_iris(checks).contains(checks[i].iris[j]),
    decreases checks.len(),
{
    let front = any_iris(checks.drop_last());
    if i == checks.len() - 1 {
        assert((front + checks.last().iris)[front.len() + j] == checks[i].iris[j]);
    } else {
        lemma_any_iris_has(checks.drop_last(), i, j);
        let k = choose|k: int| 0 <= k < front.len() && front[k] == checks[i].iris[j];
        assert((front + checks.last().iris)[k] == checks[i].iris[j]);
    }
}

/// A plan is resolved by a map that holds each of the plan's IRIs.
pub proof fn lemma_attributes_resolve(plan: PlanView, ids: Map<Seq<char>, i32>)
    requires
        forall|k: int| 0 <= k < attributes_of(plan).len() ==> ids.contains_key(
            #[trigger] attributes_of(plan)[k],
        ),
    ensures
        resolved(plan, ids),
{
    let all = attributes_of(plan);
    assert forall|i: int| 0 <= i < plan.checks.len() implies ids.contains_key(
        (#[trigger] plan.checks[i]).iri,
    ) by {
        lemma_check_iris_has(plan.checks, i);
        let k = choose|k: int|
            0 <= k < check_iris(plan.checks).len() && check_iris(plan.checks)[k]
                == plan.checks[i].iri;
        assert(all[k] == plan.checks[i].iri);
    }
    assert forall|i: int, j: int|
        0 <= i < plan.checks_any.len() && 0 <= j < plan.checks_any[i].iris.len()
            implies ids.contains_key(#[trigger] plan.checks_any[i].iris[j]) by {
        lemma_any_iris_has(plan.checks_any, i, j);
        let k = choose|k: int|
            0 <= k < any_iris(plan.checks_any).len() && any_iris(plan.checks_any)[k]
                == plan.checks_any[i].iris[j];
        assert(all[check_iris(plan.checks).len() + k] == plan.checks_any[i].iris[j]);
    }
}

impl QueryPlan {
    /// How many columns each answer has: one for each placeholder.
    pub fn select_count(&self) -> (count: usize)
        ensures
            count == self@.placeholders.len(),
    {
        self.placeholders.len()
    }

    /// Every IRI that the plan names and that needs an id before the statement
    /// can be written.
    pub fn attributes(&self) -> (iris: Vec<String>)
        ensures
            iris.deep_view() == attributes_of(self@),
    {
        let ghost checks = self.checks.deep_view();
        let ghost anys = self.checks_any.deep_view();
        let mut iris: Vec<String> = Vec::new();
        let mut i: usize = 0;
        assert(checks.take(0) =~= Seq::<CheckView>::empty());
        assert(iris.deep_view() =~= check_iris(checks.take(0)));
        while i < self.checks.len()
            invariant
                i <= self.checks.len(),
                checks == self.checks.deep_view(),
                iris.deep_view() == check_iris(checks.take(i as int)),
            decreases self.checks.len() - i,
        {
            let ghost next = checks.take(i + 1);
            let ghost before = iris.deep_view();
            assert(next.drop_last() == checks.take(i as int));
            assert(next.last() == checks[i as int]);
            iris.push(self.checks[i].iri.clone());
            assert(iris.deep_view() =~= before.push(checks[i as int].iri));
            i += 1;
        }
        assert(checks.take(i as int) == checks);
        let mut k: usize = 0;
        assert(anys.take(0) =~= Seq::<CheckAnyView>::empty());
        assert(iris.deep_view() =~= check_iris(checks) + any_iris(anys.take(0)));
        while k < self.checks_any.len()
            invariant
                k <= self.checks_any.len(),
                anys == self.checks_any.deep_view(),
                iris.deep_view() == check_iris(checks) + any_iris(anys.take(k as int)),
            decreases self.checks_any.len() - k,
        {
            let ghost next = anys.take(k + 1);
            assert(next.drop_last() == anys.take(k as int));
            assert(next.last() == anys[k as int]);
            let list = &self.checks_any[k].iris;
            assert(list.deep_view() == anys[k as int].iris);
            let ghost start = iris.deep_view();
            let mut j: usize = 0;
            while j < list.len()
                invariant
                    j <= list.len(),
                    iris.deep_view() == start + list.deep_view().take(j as int),
                decreases list.len() - j,
            {
                let ghost before = iris.deep_view();
                iris.push(list[j].clone());
                assert(iris.deep_view() =~= before.push(list@[j as int]@));
                assert(iris.deep_view() =~= start + list.deep_view().take(j + 1));
                j += 1;
            }
            assert(list.deep_view().take(j as int) == list.deep_view());
            assert(iris.deep_view() =~= check_iris(checks) + any_iris(next));
            k += 1;
        }
        assert(anys.take(k as int) == anys);
        iris
    }

    /// The statement of the plan, with each IRI written as the id that `cache`
    /// has for it.
    pub fn sql(&self, cache: &EntityCache) -> (sql: String)
        requires
            self.wf(),
            resolved(self@, cache.ids()),
        ensures
            sql@ == sql_text(self@, cache.ids()),
    {
        let mut sql = String::from_str("select ");
        push_select_list(&mut sql, &self.placeholders);
        sql.append(" from ");
        push_from_list(&mut sql, self.quad_count);
        sql.append(" where true ");
        push_literals(&mut sql, &self.others);
        push_joins(&mut sql, &self.placeholders);
        push_checks(&mut sql, &self.checks, cache);
        push_any(&mut sql, &self.checks_any, cache);
        sql
    }
}

/// Whether `part` stands somewhere in `text`.
pub open spec fn has_part(text: Seq<char>, part: Seq<char>) -> bool {
    exists|before: Seq<char>, after: Seq<char>| text == before + part + after
}

/// What stands in a part of a text stands in the text.
pub proof fn lemma_part_of_part(text: Seq<char>, part: Seq<char>, inner: Seq<char>)
    requires
        has_part(text, part),
        has_part(part, inner),
    ensures
        has_part(text, inner),
{
    let (a, b) = choose|a: Seq<char>, b: Seq<char>| text == a + part + b;
    let (c, d) = choose|c: Seq<char>, d: Seq<char>| part == c + inner + d;
    assert(text =~= (a + c) + inner + (d + b));
}

/// The conditions of a placeholder equate each of its columns with the next.
pub proof fn lemma_chain_equates_neighbours(columns: Seq<Column>, i: int)
    requires
        0 <= i,
        i + 1 < columns.len(),
    ensures
        has_part(chain_text(columns), equal_clause(columns[i], columns[i + 1])),
    decreases columns.len(),
{
    let front = columns.drop_last();
    let last = equal_clause(columns[columns.len() - 2], columns[columns.len() - 1]);
    if i + 1 == columns.len() - 1 {
        assert(chain_text(columns) =~= chain_text(front) + last + Seq::<char>::empty());
    } else {
        lemma_chain_equates_neighbours(front, i);
        let part = equal_clause(front[i], front[i + 1]);
        let (a, b) = choose|a: Seq<char>, b: Seq<char>| chain_text(front) == a + part + b;
        assert(chain_text(columns) =~= a + part + (b + last));
    }
}

/// The conditions of the placeholders hold those of each placeholder.
pub proof fn lemma_joins_hold_chain(groups: Seq<GroupView>, g: int)
    requires
        0 <= g < groups.len(),
    ensures
        has_part(joins_text(groups), chain_text(groups[g].columns)),
    decreases groups.len(),
{
    let front = groups.drop_last();
    let last = chain_text(groups.last().columns);
    if g == groups.len() - 1 {
        assert(joins_text(groups) =~= joins_text(front) + last + Seq::<char>::empty());
    } else {
        lemma_joins_hold_chain(front, g);
        let part = chain_text(front[g].columns);
        let (a, b) = choose|a: Seq<char>, b: Seq<char>| joins_text(front) == a + part + b;
        assert(joins_text(groups) =~= a + part + (b + last));
    }
}

/// The statement of a plan asks that the columns that share a placeholder are
/// equal: for every column of a placeholder but the last it holds the
/// condition that equates the column with the next.
pub proof fn lemma_statement_joins_shared_placeholders(
    plan: PlanView,
    ids: Map<Seq<char>, i32>,
    g: int,
    i: int,
)
    requires
        0 <= g < plan.placeholders.len(),
        0 <= i,
        i + 1 < plan.placeholders[g].columns.len(),
    ensures
        has_part(
            sql_text(plan, ids),
            equal_clause(plan.placeholders[g].columns[i], plan.placeholders[g].columns[i + 1]),
        ),
{
    let columns = plan.placeholders[g].columns;
    let joins = joins_text(plan.placeholders);
    lemma_chain_equates_neighbours(columns, i);
    lemma_joins_hold_chain(plan.placeholders, g);
    lemma_part_of_part(joins, chain_text(columns), equal_clause(columns[i], columns[i + 1]));
    let head = "select "@ + select_list(plan.placeholders) + " from "@ + from_list(plan.quad_count)
        + " where true "@ + literals_text(plan.others);
    let tail = checks_text(plan.checks, ids) + any_text(plan.checks_any, ids);
    assert(sql_text(plan, ids) =~= head + joins + tail);
    lemma_part_of_part(sql_text(plan, ids), joins, equal_clause(columns[i], columns[i + 1]));
}

/// Whether the keys of the groups ascend.
pub open spec fn ascending(groups: Seq<GroupView>) -> bool {
    forall|i: int, j: int| 0 <= i < j < groups.len() ==> str_lt(groups[i].key, groups[j].key)
}

/// Binding a column keeps the keys ascending, and brings no key but the one
/// that is bound.
pub proof fn lemma_bind_column_ascending(groups: Seq<GroupView>, key: Seq<char>, column: Column)
    requires
        ascending(groups),
    ensures
        ascending(bind_column(groups, key, column)),
        forall|i: int|
            0 <= i < bind_column(groups, key, column).len() ==> (#[trigger] bind_column(
                groups,
                key,
                column,
            )[i]).key == key || exists|j: int|
                0 <= j < groups.len() && (#[trigger] groups[j]).key == bind_column(
                    groups,
                    key,
                    column,
                )[i].key,
    decreases groups.len(),
{
    let out = bind_column(groups, key, column);
    if groups.len() == 0 {
    } else if str_lt(groups.last().key, key) {
        assert forall|i: int, j: int| 0 <= i < j < out.len() implies str_lt(
            out[i].key,
            out[j].key,
        ) by {
            if j == groups.len() && i < groups.len() - 1 {
                assert(str_lt(groups[i].key, groups[groups.len() - 1].key));
                lemma_str_lt_order(groups[i].key, groups.last().key, key);
            }
        }
        assert forall|i: int| 0 <= i < out.len() implies (#[trigger] out[i]).key == key
            || exists|j: int| 0 <= j < groups.len() && (#[trigger] groups[j]).key == out[i].key by {
            if i < groups.len() {
                assert(groups[i].key == out[i].key);
            }
        }
    } else if groups.last().key == key {
        assert forall|i: int, j: int| 0 <= i < j < out.len() implies str_lt(
            out[i].key,
            out[j].key,
        ) by {
            assert(out[i].key == groups[i].key);
            assert(out[j].key == groups[j].key);
        }
        assert forall|i: int| 0 <= i < out.len() implies (#[trigger] out[i]).key == key
            || exists|j: int| 0 <= j < groups.len() && (#[trigger] groups[j]).key == out[i].key by {
            assert(groups[i].key == out[i].key);
        }
    } else {
        let front = groups.drop_last();
        let inner = bind_column(front, key, column);
        assert forall|i: int, j: int| 0 <= i < j < front.len() implies str_lt(
            front[i].key,
            front[j].key,
        ) by {
            assert(str_lt(groups[i].key, groups[j].key));
        }
        lemma_bind_column_ascending(front, key, column);
        lemma_str_lt_order(groups.last().key, key, key);
        assert(str_lt(key, groups.last().key));
        assert forall|i: int, j: int| 0 <= i < j < out.len() implies str_lt(
            out[i].key,
            out[j].key,
        ) by {
            if j < inner.len() {
                assert(str_lt(inner[i].key, inner[j].key));
            } else {
                if inner[i].key != key {
                    let k = choose|k: int|
                        0 <= k < front.len() && (#[trigger] front[k]).key == inner[i].key;
                    assert(str_lt(groups[k].key, groups[groups.len() - 1].key));
                }
            }
        }
        assert forall|i: int| 0 <= i < out.len() implies (#[trigger] out[i]).key == key
            || exists|j: int| 0 <= j < groups.len() && (#[trigger] groups[j]).key == out[i].key by {
            if i < inner.len() {
                if inner[i].key != key {
                    let k = choose|k: int|
                        0 <= k < front.len() && (#[trigger] front[k]).key == inner[i].key;
                    assert(groups[k].key == out[i].key);
                }
            } else {
                assert(groups[groups.len() - 1].key == out[i].key);
            }
        }
    }
}

/// One more position keeps the keys of the placeholders ascending.
proof fn lemma_add_id_ascending(plan: PlanView, column: Column, id: QueryIdView)
    requires
        ascending(plan.placeholders),
    ensures
        ascending(add_id(plan, column, id).placeholders),
{
    if let QueryIdView::Placeholder(key) = id {
        lemma_bind_column_ascending(plan.placeholders, key, column);
    }
}

/// The placeholders of a plan stand in the ascending order of their keys, so
/// the columns of an answer do.
pub proof fn lemma_placeholders_ascend(query: Seq<QuadQueryView>)
    ensures
        ascending(plan_of(query).placeholders),
    decreases query.len(),
{
    if query.len() > 0 {
        lemma_placeholders_ascend(query.drop_last());
        let row = (query.len() - 1) as usize;
        let pattern = query.last();
        let start = plan_of(query.drop_last());
        let a = add_id(start, Column { row, field: Field::QuadId }, pattern.0);
        lemma_add_id_ascending(start, Column { row, field: Field::QuadId }, pattern.0);
        let b = add_id(a, Column { row, field: Field::PredicateId }, pattern.1);
        lemma_add_id_ascending(a, Column { row, field: Field::PredicateId }, pattern.1);
        match pattern.2 {
            QueryObjectView::Id(id) => {
                lemma_add_id_ascending(b, Column { row, field: Field::AttributeId }, id);
            },
            QueryObjectView::Object { value, type_id } => {
                lemma_add_id_ascending(
                    add_literal(b, Column { row, field: Field::Object }, value),
                    Column { row, field: Field::TypeId },
                    type_id,
                );
            },
            QueryObjectView::LanguageString { .. } => {},
        }
    }
}

} // verus!
