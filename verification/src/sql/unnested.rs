//! What holds of set-returning functions that have been unnested.
use super::ast::{
    aliased_item, column, derived_table, ident, item_expr, name1, no_grouping, no_joins,
    plain_query, string_expr, table_alias, unnamed_arg, unnamed_item, wildcard_item,
};
use super::casting::{
    argument_is, arguments, call_parts, called, is_string, is_unqualified, part_is_spelled,
    string_is_a_literal,
};
use super::joined::has_field;
use super::laws::{lookup_of_other, lookup_of_replaced, other_field_stays, set_field_is_read};
use super::meaning::field_is_found;
use super::parse::expr_string;
use super::srf::{
    access_as_subscript, access_unnested, bracket_access, fields_as_subscripts, from_qualifiers,
    is_projection_srf, is_srf_call, one_call, outer_items, projection_accesses, requalified,
    select_unnested, srf_in_access, subscript, unnest, unnested_items, unnesting_select,
    whole_calls,
};
use super::tree::{expr_node, variant, Syntax};
use crate::text::lowercased;
use vstd::prelude::*;

verus! {

proof fn fields_differ()
    ensures
        "projection"@ != "from"@ && "projection"@ != "selection"@ && "projection"@ != "group_by"@
            && "projection"@ != "having"@ && "projection"@ != "distinct"@ && "projection"@
            != "sort_by"@ && "projection"@ != "qualify"@,
        "from"@ != "selection"@ && "from"@ != "group_by"@ && "from"@ != "having"@ && "from"@
            != "distinct"@ && "from"@ != "sort_by"@ && "from"@ != "qualify"@,
        "selection"@ != "group_by"@ && "selection"@ != "having"@ && "selection"@ != "distinct"@
            && "selection"@ != "sort_by"@ && "selection"@ != "qualify"@,
        "group_by"@ != "having"@ && "group_by"@ != "distinct"@ && "group_by"@ != "sort_by"@
            && "group_by"@ != "qualify"@,
        "root"@ != "access_chain"@ && "expr"@ != "alias"@ && "UnnamedExpr"@ != "ExprWithAlias"@,
{
    reveal_strlit("projection");
    reveal_strlit("from");
    reveal_strlit("selection");
    reveal_strlit("group_by");
    reveal_strlit("having");
    reveal_strlit("distinct");
    reveal_strlit("sort_by");
    reveal_strlit("qualify");
    reveal_strlit("root");
    reveal_strlit("access_chain");
    reveal_strlit("expr");
    reveal_strlit("alias");
    reveal_strlit("UnnamedExpr");
    reveal_strlit("ExprWithAlias");
    assert("projection"@.len() == 10);
    assert("from"@.len() == 4);
    assert("selection"@.len() == 9);
    assert("group_by"@.len() == 8);
    assert("having"@.len() == 6);
    assert("distinct"@.len() == 8);
    assert("sort_by"@.len() == 7);
    assert("qualify"@.len() == 7);
    assert("root"@.len() == 4);
    assert("access_chain"@.len() == 12);
    assert("expr"@.len() == 4);
    assert("alias"@.len() == 5);
    assert("UnnamedExpr"@.len() == 11);
    assert("ExprWithAlias"@.len() == 13);
    assert("from"@[0] == 'f');
    assert("root"@[0] == 'r');
    assert("expr"@[0] == 'e');
    assert("group_by"@[0] == 'g');
    assert("distinct"@[0] == 'd');
    assert("sort_by"@[0] == 's');
    assert("qualify"@[0] == 'q');
}

/// The functions that return sets of structs, by their names in small letters.
pub proof fn sets_are_returned_by_these(name: Seq<char>)
    ensures
        is_projection_srf(name) <==> lowercased(name) == "aclexplode"@ || lowercased(name)
            == "_pg_expandarray"@ || lowercased(name) == "pg_options_to_table"@,
{
}

/// Whether `e` is a call of `unnest` with the argument `x`.
pub open spec fn unnests(e: Syntax, x: Syntax) -> bool {
    is_unqualified(called(e), "unnest"@) && arguments(e).len() == 1 && argument_is(
        arguments(e)[0],
        x,
    )
}

proof fn unnest_is_called(x: Syntax)
    ensures
        unnests(unnest(x), x),
{
    part_is_spelled("unnest"@);
    call_parts(name1("unnest"@), seq![unnamed_arg(x)]);
}

/// A call that is selected whole, where no field of a call is read and all calls are written alike,
/// is unnested where it stands, under the name that it has; every other item stays, and so does the
/// rest of the query.
pub proof fn whole_calls_are_unnested(select: Syntax, i: int)
    requires
        ({
            let items = select.at("projection"@).items();
            &&& projection_accesses(items, items.len()).len() == 0
            &&& one_call(whole_calls(items, items.len()))
            &&& 0 <= i < items.len()
            &&& item_expr(items[i]) is Some
        }),
    ensures
        ({
            let item = select.at("projection"@).items()[i];
            let e = item_expr(item)->0;
            let out = select_unnested(select);
            let item1 = out.at("projection"@).items()[i];
            &&& out.at("projection"@).items().len() == select.at("projection"@).items().len()
            &&& is_srf_call(e) ==> item_expr(item1) is Some && unnests(item_expr(item1)->0, e)
            &&& is_srf_call(e) ==> item1.payload("ExprWithAlias"@)->0.at("alias"@) == item.payload(
                "ExprWithAlias"@,
            )->0.at("alias"@) || item.payload("UnnamedExpr"@) is Some
            &&& !is_srf_call(e) ==> item1 == item
            &&& out.at("from"@) == select.at("from"@)
            &&& out.at("selection"@) == select.at("selection"@)
        }),
{
    fields_differ();
    let items = select.at("projection"@).items();
    let none = projection_accesses(items, items.len());
    assert(none + whole_calls(items, items.len()) =~= whole_calls(items, items.len()));
    let list = Syntax::List(unnested_items(items));
    set_field_is_read(select, "projection"@, list);
    other_field_stays(select, "projection"@, list, "from"@, list);
    other_field_stays(select, "projection"@, list, "selection"@, list);
    let item = items[i];
    let e = item_expr(item)->0;
    unnest_is_called(e);
    if is_srf_call(e) {
        let x = unnest(e);
        if item.payload("UnnamedExpr"@) is Some {
            assert(unnamed_item(x).payload("UnnamedExpr"@) == Some(expr_node(x)));
        } else {
            let a = item.payload("ExprWithAlias"@)->0;
            set_field_is_read(a, "expr"@, expr_node(x));
            other_field_stays(a, "expr"@, expr_node(x), "alias"@, x);
            let out = variant("ExprWithAlias"@, a.with("expr"@, expr_node(x)));
            assert(out.payload("ExprWithAlias"@) == Some(a.with("expr"@, expr_node(x))));
            assert(out.payload("UnnamedExpr"@) is None);
            if a.at("expr"@) == Syntax::Null {
                assert(e == Syntax::Null);
            }
        }
    }
}

/// A `SELECT` of calls that are not written alike is left alone.
pub proof fn several_calls_are_left_alone(select: Syntax, a: int, b: int)
    requires
        ({
            let items = select.at("projection"@).items();
            let calls = projection_accesses(items, items.len()) + whole_calls(items, items.len());
            0 <= a < calls.len() && 0 <= b < calls.len() && expr_string(calls[a]) != expr_string(
                calls[b],
            )
        }),
    ensures
        select_unnested(select) == select,
{
}

/// A `SELECT` of fields of a call reads from a derived table alone. That table has all columns of
/// the
/// rows of the same `FROM` and `WHERE`, neither grouped nor picked, and the elements of the call as
/// `__srf_unnest`; the condition is not tested again, and the grouping stays outside.
pub proof fn fields_are_read_from_the_elements(select: Syntax)
    requires
        ({
            let items = select.at("projection"@).items();
            let calls = projection_accesses(items, items.len());
            &&& calls.len() > 0
            &&& one_call(calls + whole_calls(items, items.len()))
        }),
        has_field(select, "selection"@),
        has_field(select, "group_by"@),
        has_field(select, "from"@),
        has_field(select, "distinct"@),
        has_field(select, "having"@),
        select.at("projection"@) != Syntax::Null,
    ensures
        ({
            let items = select.at("projection"@).items();
            let srf = projection_accesses(items, items.len())[0];
            let out = select_unnested(select);
            let table = out.at("from"@).item(0);
            let d = table.at("relation"@).payload("Derived"@);
            let inner = d->0.at("subquery"@).at("body"@).payload("Select"@);
            let selected = inner->0.at("projection"@).items();
            let element = selected[1].payload("ExprWithAlias"@);
            &&& out.at("from"@).items().len() == 1
            &&& table.at("joins"@).items().len() == 0
            &&& d is Some
            &&& d->0.at("lateral"@) == Syntax::Bool(false)
            &&& d->0.at("alias"@).at("name"@).at("value"@) == Syntax::Text("__srf_src"@)
            &&& inner is Some
            &&& inner->0.at("from"@) == select.at("from"@)
            &&& inner->0.at("selection"@) == select.at("selection"@)
            &&& inner->0.at("group_by"@) == no_grouping()
            &&& inner->0.at("having"@) == Syntax::Null
            &&& inner->0.at("distinct"@) == Syntax::Null
            &&& selected.len() == 2
            &&& selected[0].payload("Wildcard"@) is Some
            &&& element is Some
            &&& unnests(element->0.at("expr"@).inner(), srf)
            &&& element->0.at("alias"@).at("value"@) == Syntax::Text("__srf_unnest"@)
            &&& out.at("selection"@) == Syntax::Null
            &&& out.at("group_by"@) == select.at("group_by"@)
            &&& out.at("having"@) == select.at("having"@)
            &&& out.at("distinct"@) == select.at("distinct"@)
            &&& out.at("projection"@).items().len() == items.len()
        }),
{
    fields_differ();
    let items = select.at("projection"@).items();
    let from = select.at("from"@).items();
    let srf = projection_accesses(items, items.len())[0];
    unnest_is_called(srf);
    inner_select_parts(select, srf);
    let inner_select = unnesting_select(select, srf);
    let body = variant("Select"@, inner_select);
    let inner = plain_query(body);
    plain_query_body(body);
    assert(body.payload("Select"@) == Some(inner_select));
    derived_parts(inner, "__srf_src"@);
    let list = Syntax::List(outer_items(srf, from_qualifiers(from, from.len()), items));
    let tables = Syntax::List(
        seq![no_joins(derived_table(inner, table_alias("__srf_src"@, true)))],
    );
    let one = select.with("projection"@, list);
    let two = one.with("from"@, tables);
    let three = two.with("selection"@, Syntax::Null);
    assert(select_unnested(select) == three);
    set_field_is_read(select, "projection"@, list);
    field_stays(select, list, tables);
    assert(tables.items()[0] == tables.item(0));
}

proof fn field_stays(select: Syntax, list: Syntax, tables: Syntax)
    requires
        has_field(select, "selection"@),
        has_field(select, "from"@),
        select.at("projection"@) != Syntax::Null,
    ensures
        ({
            let out = select.with("projection"@, list).with("from"@, tables).with(
                "selection"@,
                Syntax::Null,
            );
            &&& out.at("projection"@) == list
            &&& out.at("from"@) == tables
            &&& out.at("selection"@) == Syntax::Null
            &&& out.at("group_by"@) == select.at("group_by"@)
            &&& out.at("having"@) == select.at("having"@)
            &&& out.at("distinct"@) == select.at("distinct"@)
        }),
{
    fields_differ();
    let null = Syntax::Null;
    let one = select.with("projection"@, list);
    let two = one.with("from"@, tables);
    set_field_is_read(select, "projection"@, list);
    other_field_stays(one, "from"@, tables, "projection"@, null);
    other_field_stays(two, "selection"@, null, "projection"@, null);
    lookup_of_other(select->Record_0, "projection"@, list, "from"@);
    lookup_of_replaced(one->Record_0, "from"@, tables);
    other_field_stays(two, "selection"@, null, "from"@, null);
    lookup_of_other(select->Record_0, "projection"@, list, "selection"@);
    lookup_of_other(one->Record_0, "from"@, tables, "selection"@);
    lookup_of_replaced(two->Record_0, "selection"@, null);
    other_field_stays(select, "projection"@, list, "group_by"@, null);
    other_field_stays(one, "from"@, tables, "group_by"@, null);
    other_field_stays(two, "selection"@, null, "group_by"@, null);
    other_field_stays(select, "projection"@, list, "having"@, null);
    other_field_stays(one, "from"@, tables, "having"@, null);
    other_field_stays(two, "selection"@, null, "having"@, null);
    other_field_stays(select, "projection"@, list, "distinct"@, null);
    other_field_stays(one, "from"@, tables, "distinct"@, null);
    other_field_stays(two, "selection"@, null, "distinct"@, null);
}

proof fn plain_query_body(body: Syntax)
    ensures
        plain_query(body).at("body"@) == body,
{
    reveal_strlit("with");
    reveal_strlit("body");
    assert("with"@.len() == 4);
    assert("body"@.len() == 4);
    assert("with"@[0] == 'w');
    assert("body"@[0] == 'b');
    field_is_found(plain_query(body)->Record_0, 1);
}

proof fn derived_parts(inner: Syntax, name: Seq<char>)
    ensures
        ({
            let table = no_joins(derived_table(inner, table_alias(name, true)));
            let d = table.at("relation"@).payload("Derived"@);
            &&& table.at("joins"@).items().len() == 0
            &&& d is Some
            &&& d->0.at("lateral"@) == Syntax::Bool(false)
            &&& d->0.at("subquery"@) == inner
            &&& d->0.at("alias"@).at("name"@).at("value"@) == Syntax::Text(name)
        }),
{
    reveal_strlit("relation");
    reveal_strlit("joins");
    reveal_strlit("lateral");
    reveal_strlit("subquery");
    reveal_strlit("alias");
    reveal_strlit("explicit");
    reveal_strlit("name");
    assert("relation"@.len() == 8);
    assert("joins"@.len() == 5);
    assert("lateral"@.len() == 7);
    assert("subquery"@.len() == 8);
    assert("alias"@.len() == 5);
    assert("explicit"@.len() == 8);
    assert("name"@.len() == 4);
    assert("relation"@[0] == 'r');
    assert("subquery"@[0] == 's');
    assert("explicit"@[0] == 'e');
    assert("joins"@[0] == 'j');
    assert("alias"@[0] == 'a');
    let factor = derived_table(inner, table_alias(name, true));
    let table = no_joins(factor);
    field_is_found(table->Record_0, 0);
    field_is_found(table->Record_0, 1);
    let d = factor.payload("Derived"@)->0;
    field_is_found(d->Record_0, 0);
    field_is_found(d->Record_0, 1);
    field_is_found(d->Record_0, 2);
    field_is_found(table_alias(name, true)->Record_0, 1);
    field_is_found(ident(name)->Record_0, 0);
}

proof fn inner_select_parts(select: Syntax, srf: Syntax)
    requires
        has_field(select, "selection"@),
        has_field(select, "group_by"@),
        has_field(select, "distinct"@),
        has_field(select, "having"@),
        select.at("projection"@) != Syntax::Null,
    ensures
        ({
            let inner = unnesting_select(select, srf);
            let selected = inner.at("projection"@).items();
            let element = selected[1].payload("ExprWithAlias"@);
            &&& inner.at("from"@) == select.at("from"@)
            &&& inner.at("selection"@) == select.at("selection"@)
            &&& inner.at("group_by"@) == no_grouping()
            &&& inner.at("having"@) == Syntax::Null
            &&& inner.at("distinct"@) == Syntax::Null
            &&& selected.len() == 2
            &&& selected[0].payload("Wildcard"@) is Some
            &&& element is Some
            &&& element->0.at("expr"@).inner() == unnest(srf)
            &&& element->0.at("alias"@).at("value"@) == Syntax::Text("__srf_unnest"@)
        }),
{
    fields_differ();
    reveal_strlit("having");
    reveal_strlit("distinct");
    reveal_strlit("sort_by");
    reveal_strlit("qualify");
    assert("having"@.len() == 6);
    assert("distinct"@.len() == 8);
    assert("sort_by"@.len() == 7);
    assert("qualify"@.len() == 7);
    assert("sort_by"@[0] == 's');
    assert("qualify"@[0] == 'q');
    let null = Syntax::Null;
    let none = Syntax::List(Seq::empty());
    let list = Syntax::List(seq![wildcard_item(), aliased_item(unnest(srf), "__srf_unnest"@)]);
    let one = select.with("projection"@, list);
    let two = one.with("group_by"@, no_grouping());
    let three = two.with("having"@, null);
    let four = three.with("distinct"@, null);
    let five = four.with("sort_by"@, none);
    let six = five.with("qualify"@, null);
    assert(unnesting_select(select, srf) == six);
    later_fields_stay(two, "projection"@);
    later_fields_stay(two, "from"@);
    later_fields_stay(two, "selection"@);
    later_fields_stay(two, "group_by"@);
    set_field_is_read(select, "projection"@, list);
    other_field_stays(one, "group_by"@, no_grouping(), "projection"@, null);
    other_field_stays(select, "projection"@, list, "from"@, null);
    other_field_stays(one, "group_by"@, no_grouping(), "from"@, null);
    other_field_stays(select, "projection"@, list, "selection"@, null);
    other_field_stays(one, "group_by"@, no_grouping(), "selection"@, null);
    lookup_of_other(select->Record_0, "projection"@, list, "group_by"@);
    lookup_of_replaced(one->Record_0, "group_by"@, no_grouping());
    lookup_of_other(select->Record_0, "projection"@, list, "having"@);
    lookup_of_other(one->Record_0, "group_by"@, no_grouping(), "having"@);
    lookup_of_replaced(two->Record_0, "having"@, null);
    other_field_stays(three, "distinct"@, null, "having"@, null);
    other_field_stays(four, "sort_by"@, none, "having"@, null);
    other_field_stays(five, "qualify"@, null, "having"@, null);
    lookup_of_other(select->Record_0, "projection"@, list, "distinct"@);
    lookup_of_other(one->Record_0, "group_by"@, no_grouping(), "distinct"@);
    lookup_of_other(two->Record_0, "having"@, null, "distinct"@);
    lookup_of_replaced(three->Record_0, "distinct"@, null);
    other_field_stays(four, "sort_by"@, none, "distinct"@, null);
    other_field_stays(five, "qualify"@, null, "distinct"@, null);
    let item = aliased_item(unnest(srf), "__srf_unnest"@);
    let a = item.payload("ExprWithAlias"@)->0;
    field_is_found(a->Record_0, 0);
    field_is_found(a->Record_0, 1);
    field_is_found(ident("__srf_unnest"@)->Record_0, 0);
    assert(list.items()[1] == item);
    assert(list.items()[0] == wildcard_item());
}

proof fn later_fields_stay(select: Syntax, name: Seq<char>)
    requires
        name == "projection"@ || name == "from"@ || name == "selection"@ || name == "group_by"@,
    ensures
        select.with("having"@, Syntax::Null).with("distinct"@, Syntax::Null).with(
            "sort_by"@,
            Syntax::List(Seq::empty()),
        ).with("qualify"@, Syntax::Null).at(name) == select.at(name),
{
    fields_differ();
    let null = Syntax::Null;
    let none = Syntax::List(Seq::empty());
    let three = select.with("having"@, null);
    let four = three.with("distinct"@, null);
    let five = four.with("sort_by"@, none);
    other_field_stays(select, "having"@, null, name, null);
    other_field_stays(three, "distinct"@, null, name, null);
    other_field_stays(four, "sort_by"@, none, name, null);
    other_field_stays(five, "qualify"@, null, name, null);
}

/// The root of an access, as the text of a plain name.
pub open spec fn root_name(e: Syntax) -> Syntax {
    e.payload("CompoundFieldAccess"@)->0.at("root"@).inner().payload("Identifier"@)->0.at("value"@)
}

/// The subscript of an access.
pub open spec fn subscript_of(access: Syntax) -> Syntax {
    access.payload("Subscript"@)->0.payload("Index"@)->0.at("index"@).inner()
}

/// Whether an access is one by the name `field`.
pub open spec fn is_field(access: Syntax, field: Seq<char>) -> bool {
    access.payload("Dot"@) matches Some(d) && (d.inner().payload("Identifier"@) matches Some(id)
        && id.at("value"@) == Syntax::Text(field))
}

proof fn subscript_is_read(field: Seq<char>)
    ensures
        is_string(subscript_of(subscript(field)), field),
{
    string_is_a_literal(field);
    let index = variant("Index"@, Syntax::Record(seq![("index"@, expr_node(string_expr(field)))]));
    let r = index.payload("Index"@)->0;
    field_is_found(r->Record_0, 0);
    assert(subscript(field).payload("Subscript"@) == Some(index));
}

/// `(srf(x)).field` becomes `__srf_unnest['field']`, of the same field, where the call is the one
/// that was unnested.
pub proof fn fields_of_elements_are_read(srf: Syntax, e: Syntax, field: Seq<char>)
    requires
        srf_in_access(e) is Some,
        expr_string(srf_in_access(e)->0) == expr_string(srf),
        is_field(e.payload("CompoundFieldAccess"@)->0.at("access_chain"@).item(0), field),
    ensures
        ({
            let out = access_unnested(srf, e);
            let chain = out.payload("CompoundFieldAccess"@)->0.at("access_chain"@).items();
            &&& root_name(out) == Syntax::Text("__srf_unnest"@)
            &&& chain.len() == 1
            &&& is_string(subscript_of(chain[0]), field)
        }),
{
    fields_differ();
    subscript_is_read(field);
    let out = bracket_access("__srf_unnest"@, field);
    let c = out.payload("CompoundFieldAccess"@)->0;
    field_is_found(c->Record_0, 0);
    field_is_found(c->Record_0, 1);
    field_is_found(ident("__srf_unnest"@)->Record_0, 0);
    assert(column("__srf_unnest"@).payload("Identifier"@) == Some(ident("__srf_unnest"@)));
    assert(c.at("access_chain"@).items() =~= seq![subscript(field)]);
}

/// A field of a value in parentheses, or of what a function returns, is read by subscript: each
/// access by a name becomes one by that name as a text, in its place, and the value stays.
pub proof fn fields_are_read_by_subscript(e: Syntax, i: int, field: Seq<char>)
    requires
        ({
            let c = e.payload("CompoundFieldAccess"@)->0;
            let root = c.at("root"@).inner();
            &&& e.payload("CompoundFieldAccess"@) is Some
            &&& root.payload("Nested"@) is Some || root.payload("Function"@) is Some
            &&& 0 <= i < c.at("access_chain"@).items().len()
            &&& is_field(c.at("access_chain"@).items()[i], field)
        }),
    ensures
        ({
            let c = e.payload("CompoundFieldAccess"@)->0;
            let out = fields_as_subscripts(e).payload("CompoundFieldAccess"@);
            &&& out is Some
            &&& out->0.at("root"@) == c.at("root"@)
            &&& out->0.at("access_chain"@).items().len() == c.at("access_chain"@).items().len()
            &&& is_string(subscript_of(out->0.at("access_chain"@).items()[i]), field)
        }),
{
    fields_differ();
    subscript_is_read(field);
    let c = e.payload("CompoundFieldAccess"@)->0;
    let chain = c.at("access_chain"@).items();
    let new = Syntax::List(
        Seq::new(chain.len(), |i: int| access_as_subscript(chain[i])),
    );
    set_field_is_read(c, "access_chain"@, new);
    other_field_stays(c, "access_chain"@, new, "root"@, new);
    let out = fields_as_subscripts(e);
    assert(out.payload("CompoundFieldAccess"@) == Some(c.with("access_chain"@, new)));
}

/// A column of one of the tables that the derived table is made of is read from that table; any
/// other
/// column stays.
pub proof fn columns_are_read_from_the_derived_table(tables: Seq<Seq<char>>, e: Syntax)
    requires
        e.payload("CompoundIdentifier"@) is Some,
        e.payload("CompoundIdentifier"@)->0.items().len() == 2,
        e.payload("CompoundIdentifier"@)->0.items()[0].at("value"@) is Text,
    ensures
        ({
            let path = e.payload("CompoundIdentifier"@)->0.items();
            let table = path[0].at("value"@)->Text_0;
            let out = requalified(tables, e).payload("CompoundIdentifier"@);
            &&& tables.contains(lowercased(table)) ==> out is Some && out->0.items().len() == 2
                && out->0.items()[0].at("value"@) == Syntax::Text("__srf_src"@) && out->0.items()[1]
                == path[1]
            &&& !tables.contains(lowercased(table)) ==> requalified(tables, e) == e
        }),
{
    field_is_found(ident("__srf_src"@)->Record_0, 0);
}

} // verus!
