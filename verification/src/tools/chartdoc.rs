//! The description of the chart's values, made from their JSON schema.
use crate::json;
use crate::json::Json;
use crate::table;
use crate::text;
use vstd::prelude::*;

verus! {

/// The lines that are not blank, without the blanks round them.
pub open spec fn filled(lines: Seq<Seq<char>>) -> Seq<Seq<char>>
    decreases lines.len(),
{
    if lines.len() == 0 {
        Seq::empty()
    } else {
        let line = text::trimmed(lines.last());
        if line.len() > 0 {
            filled(lines.drop_last()).push(line)
        } else {
            filled(lines.drop_last())
        }
    }
}

/// A description on one line, as a cell of a table.
pub open spec fn one_line(s: Seq<char>) -> Seq<char> {
    text::replaced(text::joined(filled(text::parts(s, '\n')), " "@), "|"@, "\\|"@)
}

fn describe(s: &str) -> (r: String)
    ensures
        r@ == one_line(s@),
{
    let lines: Vec<String> = text::split(s, '\n');
    let ghost all = lines.deep_view();
    let mut out: Vec<String> = Vec::new();
    let mut i: usize = 0;
    proof {
        assert(out.deep_view() =~= Seq::<Seq<char>>::empty());
        assert(all.take(0) =~= Seq::<Seq<char>>::empty());
        reveal_strlit("|");
    }
    while i < lines.len()
        invariant
            i <= lines@.len(),
            all == lines.deep_view(),
            out.deep_view() == filled(all.take(i as int)),
        decreases lines@.len() - i,
    {
        proof {
            assert(all.take(i + 1).drop_last() =~= all.take(i as int));
            assert(all.take(i + 1).last() == lines@[i as int]@);
        }
        let line: &str = text::trim(lines[i].as_str());
        if line.unicode_len() > 0 {
            let ghost so_far = out.deep_view();
            out.push(line.to_owned());
            proof {
                assert(out.deep_view() =~= so_far.push(line@));
            }
        }
        i += 1;
    }
    proof {
        assert(all.take(i as int) =~= all);
    }
    let whole: String = text::join(&out, " ");
    text::replace(whole.as_str(), "|", "\\|")
}

/// The texts among these values.
pub open spec fn texts(items: Seq<Json>) -> Seq<Seq<char>>
    decreases items.len(),
{
    if items.len() == 0 {
        Seq::empty()
    } else if items.last() is Text {
        texts(items.drop_last()).push(items.last()->Text_0)
    } else {
        texts(items.drop_last())
    }
}

/// The texts in the array under `key`.
pub open spec fn texts_under(v: Json, key: Seq<char>) -> Option<Seq<Seq<char>>> {
    match json::field_of(v, key) {
        Some(Json::Array(items)) => Some(texts(items)),
        _ => None,
    }
}

fn list_texts(v: &serde_json::Value, key: &str) -> (r: Option<Vec<String>>)
    ensures
        r.deep_view() == texts_under(json::json(*v), key@),
{
    let items: &Vec<serde_json::Value> = match json::field(v, key) {
        Some(x) => match x.as_array() {
            Some(items) => items,
            None => {
                return None;
            },
        },
        None => {
            return None;
        },
    };
    let ghost all = json::jsons(items@);
    let mut out: Vec<String> = Vec::new();
    let mut i: usize = 0;
    proof {
        assert(out.deep_view() =~= Seq::<Seq<char>>::empty());
        assert(all.take(0) =~= Seq::<Json>::empty());
    }
    while i < items.len()
        invariant
            i <= items@.len(),
            all == json::jsons(items@),
            out.deep_view() == texts(all.take(i as int)),
        decreases items@.len() - i,
    {
        proof {
            assert(all.take(i + 1).drop_last() =~= all.take(i as int));
            assert(all.take(i + 1).last() == json::json(items@[i as int]));
        }
        if let Some(s) = items[i].as_str() {
            let ghost so_far = out.deep_view();
            out.push(s.to_owned());
            proof {
                assert(out.deep_view() =~= so_far.push(s@));
            }
        }
        i += 1;
    }
    proof {
        assert(all.take(i as int) =~= all);
    }
    Some(out)
}

/// The fields that a schema requires.
pub open spec fn required_of(schema: Json) -> Seq<Seq<char>> {
    match texts_under(schema, "required"@) {
        Some(names) => names,
        None => Seq::empty(),
    }
}

/// Lists the fields that a schema requires.
pub fn required_fields(schema: &serde_json::Value) -> (r: Vec<String>)
    ensures
        r.deep_view() == required_of(json::json(*schema)),
{
    match list_texts(schema, "required") {
        Some(names) => names,
        None => {
            let none: Vec<String> = Vec::new();
            proof {
                assert(none.deep_view() =~= Seq::<Seq<char>>::empty());
            }
            none
        },
    }
}

/// The type of a property in words: its choices, where it has some.
pub open spec fn type_of(prop: Json) -> Seq<char> {
    match texts_under(prop, "enum"@) {
        Some(choices) => text::joined(choices, " / "@),
        None => match json::text_of(prop, "type"@) {
            Some(t) => if t == "string"@ {
                "string"@
            } else if t == "boolean"@ {
                "bool"@
            } else if t == "integer"@ {
                "integer"@
            } else if t == "number"@ {
                "number"@
            } else if t == "array"@ {
                if item_type(prop) == Some("string"@) {
                    "list(string)"@
                } else {
                    "list"@
                }
            } else if t == "object"@ {
                "object"@
            } else {
                "any"@
            },
            None => "any"@,
        },
    }
}

/// The type of the items of an array.
pub open spec fn item_type(prop: Json) -> Option<Seq<char>> {
    match json::field_of(prop, "items"@) {
        Some(items) => json::text_of(items, "type"@),
        None => None,
    }
}

/// Says the type of a property in words.
pub fn schema_type_str(prop: &serde_json::Value) -> (r: String)
    ensures
        r@ == type_of(json::json(*prop)),
{
    if let Some(choices) = list_texts(prop, "enum") {
        return text::join(&choices, " / ");
    }
    let t: String = match json::text_field(prop, "type") {
        Some(t) => t,
        None => {
            return "any".to_owned();
        },
    };
    let word: &str = if text::same(t.as_str(), "string") {
        "string"
    } else if text::same(t.as_str(), "boolean") {
        "bool"
    } else if text::same(t.as_str(), "integer") {
        "integer"
    } else if text::same(t.as_str(), "number") {
        "number"
    } else if text::same(t.as_str(), "array") {
        let items: Option<String> = match json::field(prop, "items") {
            Some(items) => json::text_field(items, "type"),
            None => None,
        };
        match items {
            Some(t) => if text::same(t.as_str(), "string") {
                "list(string)"
            } else {
                "list"
            },
            None => "list",
        }
    } else if text::same(t.as_str(), "object") {
        "object"
    } else {
        "any"
    };
    word.to_owned()
}

/// A text as code.
pub open spec fn code(s: Seq<char>) -> Seq<char> {
    "`"@ + s + "`"@
}

fn new_code(s: &str) -> (r: String)
    ensures
        r@ == code(s@),
{
    text::cat3("`", s, "`")
}

/// A default value in words; arrays and objects with content are not written out.
pub open spec fn default_word(value: Json) -> Seq<char> {
    match value {
        Json::Null => "-"@,
        Json::Bool(b) => code(
            if b {
                "true"@
            } else {
                "false"@
            },
        ),
        Json::Number(n) => code(n),
        Json::Text(s) => code(
            if s.len() == 0 {
                "\"\""@
            } else {
                s
            },
        ),
        Json::Array(items) => if items.len() == 0 {
            code("[]"@)
        } else {
            "-"@
        },
        Json::Object(m) => if m.dom() == Set::<Seq<char>>::empty() {
            code("{}"@)
        } else {
            "-"@
        },
    }
}

/// Says a default value in words.
pub fn format_default(value: &serde_json::Value) -> (r: String)
    ensures
        r@ == default_word(json::json(*value)),
{
    if let Some(b) = value.as_bool() {
        return new_code(
            if b {
                "true"
            } else {
                "false"
            },
        );
    }
    if let Some(n) = json::number_text(value) {
        return new_code(n.as_str());
    }
    if let Some(s) = value.as_str() {
        return new_code(
            if s.unicode_len() == 0 {
                "\"\""
            } else {
                s
            },
        );
    }
    if let Some(items) = value.as_array() {
        if items.len() == 0 {
            return new_code("[]");
        }
    }
    if let Some(names) = json::field_names(value) {
        if names.len() == 0 {
            proof {
                assert(names.deep_view().to_set() =~= Set::<Seq<char>>::empty());
            }
            return new_code("{}");
        }
        proof {
            assert(names.deep_view().to_set().contains(names.deep_view()[0]));
        }
    }
    "-".to_owned()
}

/// The row of a property.
pub open spec fn row(
    path: Seq<char>,
    prop: Json,
    required: bool,
    value: Option<Json>,
) -> Seq<Seq<char>> {
    let described = match json::text_of(prop, "description"@) {
        Some(s) => s,
        None => "-"@,
    };
    let default = match value {
        Some(v) => default_word(v),
        None => match json::field_of(prop, "default"@) {
            Some(v) => default_word(v),
            None => "-"@,
        },
    };
    Seq::empty().push(code(path)).push(code(type_of(prop))).push(default).push(
        if required {
            "yes"@
        } else {
            "no"@
        },
    ).push(one_line(described))
}

fn new_row(
    path: &str,
    prop: &serde_json::Value,
    required: bool,
    value: Option<&serde_json::Value>,
) -> (r: [String; 5])
    ensures
        r.deep_view() == row(
            path@,
            json::json(*prop),
            required,
            (match value {
                Some(v) => Some(json::json(*v)),
                None => None,
            }),
        ),
{
    let described: String = match json::text_field(prop, "description") {
        Some(s) => s,
        None => "-".to_owned(),
    };
    let default: String = match value {
        Some(v) => format_default(v),
        None => match json::field(prop, "default") {
            Some(v) => format_default(v),
            None => "-".to_owned(),
        },
    };
    let type_: String = schema_type_str(prop);
    let answer: &str = if required {
        "yes"
    } else {
        "no"
    };
    let r: [String; 5] = [
        new_code(path),
        new_code(type_.as_str()),
        default,
        answer.to_owned(),
        describe(described.as_str()),
    ];
    proof {
        assert(r.deep_view() =~= row(
            path@,
            json::json(*prop),
            required,
            (match value {
                Some(v) => Some(json::json(*v)),
                None => None,
            }),
        ));
    }
    r
}

/// The value under `key` of a value that may be missing.
pub open spec fn field_in(value: Option<Json>, key: Seq<char>) -> Option<Json> {
    match value {
        Some(v) => json::field_of(v, key),
        None => None,
    }
}

/// The names of the properties in an object, in order.
pub open spec fn names_of(props: Json) -> Seq<Seq<char>> {
    match props {
        Json::Object(m) => table::sorted(m.dom()),
        _ => Seq::empty(),
    }
}

/// The rows of a property and of the properties under it.
pub open spec fn rows_of(
    path: Seq<char>,
    prop: Json,
    required: bool,
    value: Option<Json>,
) -> Seq<Seq<Seq<char>>>
    decreases prop, 0nat,
{
    let own = Seq::empty().push(row(path, prop, required, value));
    match json::field_of(prop, "properties"@) {
        Some(props) => own + rows_under(
            path + "."@,
            props,
            names_of(props),
            required_of(prop),
            value,
        ),
        None => own,
    }
}

/// The rows of these properties, one after the other, with `prefix` before their
/// names.
pub open spec fn rows_under(
    prefix: Seq<char>,
    props: Json,
    names: Seq<Seq<char>>,
    required: Seq<Seq<char>>,
    value: Option<Json>,
) -> Seq<Seq<Seq<char>>>
    decreases props, names.len(),
{
    if names.len() == 0 {
        Seq::empty()
    } else {
        let before = rows_under(prefix, props, names.drop_last(), required, value);
        let name = names.last();
        match json::field_of(props, name) {
            Some(prop) => before + rows_of(
                prefix + name,
                prop,
                required.contains(name),
                field_in(value, name),
            ),
            None => before,
        }
    }
}

/// What a value that may be missing holds.
pub open spec fn holds(value: Option<&serde_json::Value>) -> Option<Json> {
    match value {
        Some(v) => Some(json::json(*v)),
        None => None,
    }
}

fn list_names(props: &serde_json::Value) -> (r: Vec<String>)
    ensures
        r.deep_view() == names_of(json::json(*props)),
{
    match json::field_names(props) {
        Some(names) => {
            proof {
                table::ascending_is_sorted(names.deep_view());
            }
            names
        },
        None => {
            let none: Vec<String> = Vec::new();
            proof {
                assert(none.deep_view() =~= Seq::<Seq<char>>::empty());
            }
            none
        },
    }
}

/// Adds the rows of a property and of the properties under it.
pub fn collect_rows(
    rows: &mut Vec<[String; 5]>,
    path: &str,
    prop: &serde_json::Value,
    required: bool,
    value: Option<&serde_json::Value>,
)
    ensures
        final(rows).deep_view() == old(rows).deep_view() + rows_of(
            path@,
            json::json(*prop),
            required,
            holds(value),
        ),
    decreases json::json(*prop), 0nat,
{
    let ghost start = rows.deep_view();
    rows.push(new_row(path, prop, required, value));
    let ghost own = Seq::empty().push(row(path@, json::json(*prop), required, holds(value)));
    proof {
        assert(rows.deep_view() =~= start + own);
    }
    if let Some(props) = json::field(prop, "properties") {
        let names: Vec<String> = list_names(props);
        let needed: Vec<String> = required_fields(prop);
        let prefix: String = text::cat2(path, ".");
        proof {
            assert(decreases_to!(json::json(*prop) => json::json(*prop)->Object_0["properties"@]));
        }
        collect_under(rows, prefix.as_str(), props, &names, &needed, value);
        proof {
            assert(rows.deep_view() =~= start + (own + rows_under(
                path@ + "."@,
                json::json(*props),
                names_of(json::json(*props)),
                required_of(json::json(*prop)),
                holds(value),
            )));
        }
    }
}

fn collect_under(
    rows: &mut Vec<[String; 5]>,
    prefix: &str,
    props: &serde_json::Value,
    names: &Vec<String>,
    needed: &Vec<String>,
    value: Option<&serde_json::Value>,
)
    ensures
        final(rows).deep_view() == old(rows).deep_view() + rows_under(
            prefix@,
            json::json(*props),
            names.deep_view(),
            needed.deep_view(),
            holds(value),
        ),
    decreases json::json(*props), 1nat,
{
    let ghost start = rows.deep_view();
    let ghost all = names.deep_view();
    let mut i: usize = 0;
    proof {
        assert(all.take(0) =~= Seq::<Seq<char>>::empty());
        assert(start + Seq::<Seq<Seq<char>>>::empty() =~= start);
    }
    while i < names.len()
        invariant
            i <= names@.len(),
            all == names.deep_view(),
            rows.deep_view() == start + rows_under(
                prefix@,
                json::json(*props),
                all.take(i as int),
                needed.deep_view(),
                holds(value),
            ),
        decreases names@.len() - i,
    {
        proof {
            assert(all.take(i + 1).drop_last() =~= all.take(i as int));
            assert(all.take(i + 1).last() == names@[i as int]@);
        }
        let ghost before_rows = rows_under(
            prefix@,
            json::json(*props),
            all.take(i as int),
            needed.deep_view(),
            holds(value),
        );
        let name: &str = names[i].as_str();
        if let Some(prop) = json::field(props, name) {
            let path: String = text::cat2(prefix, name);
            let required: bool = text::contains(needed, name);
            let inner: Option<&serde_json::Value> = match value {
                Some(v) => json::field(v, name),
                None => None,
            };
            proof {
                assert(decreases_to!(json::json(*props) => json::json(*props)->Object_0[name@]));
            }
            collect_rows(rows, path.as_str(), prop, required, inner);
            proof {
                assert(rows.deep_view() =~= start + (before_rows + rows_of(
                    prefix@ + name@,
                    json::json(*prop),
                    needed.deep_view().contains(name@),
                    field_in(holds(value), name@),
                )));
            }
        }
        i += 1;
    }
    proof {
        assert(all.take(i as int) =~= all);
    }
}

/// The width of a column in bytes.
pub open spec fn width(headers: Seq<Seq<char>>, rows: Seq<Seq<Seq<char>>>, i: int) -> nat
    decreases rows.len(),
{
    if rows.len() == 0 {
        text::byte_len(headers[i])
    } else {
        let before = width(headers, rows.drop_last(), i);
        if i < rows.last().len() && text::byte_len(rows.last()[i]) > before {
            text::byte_len(rows.last()[i])
        } else {
            before
        }
    }
}

/// The widths of all columns.
pub open spec fn widths_of(headers: Seq<Seq<char>>, rows: Seq<Seq<Seq<char>>>) -> Seq<nat> {
    Seq::new(headers.len(), |i: int| width(headers, rows, i))
}

/// A character some times over.
pub open spec fn times(c: char, n: nat) -> Seq<char> {
    Seq::new(n, |i: int| c)
}

/// A text with blanks behind it, up to a number of characters.
pub open spec fn padded(s: Seq<char>, w: nat) -> Seq<char> {
    s + times(
        ' ',
        if w > s.len() {
            (w - s.len()) as nat
        } else {
            0
        },
    )
}

/// The beginning of a line of the table: the first `n` cells.
pub open spec fn cells_line(cells: Seq<Seq<char>>, widths: Seq<nat>, n: nat) -> Seq<char>
    decreases n,
{
    if n == 0 {
        "|"@
    } else {
        let i = n - 1;
        cells_line(cells, widths, i as nat) + (" "@ + padded(cells[i], widths[i]) + " |"@)
    }
}

/// The beginning of the line under the headers: the first `n` cells.
pub open spec fn rule_line(widths: Seq<nat>, n: nat) -> Seq<char>
    decreases n,
{
    if n == 0 {
        "|"@
    } else {
        let i = n - 1;
        rule_line(widths, i as nat) + (" "@ + times('-', widths[i]) + " |"@)
    }
}

/// How many cells a row shows: those that have a column.
pub open spec fn shown(cells: Seq<Seq<char>>, widths: Seq<nat>) -> nat {
    if cells.len() < widths.len() {
        cells.len()
    } else {
        widths.len()
    }
}

/// The lines of the rows.
pub open spec fn row_lines(rows: Seq<Seq<Seq<char>>>, widths: Seq<nat>) -> Seq<char>
    decreases rows.len(),
{
    if rows.len() == 0 {
        Seq::empty()
    } else {
        row_lines(rows.drop_last(), widths) + (cells_line(
            rows.last(),
            widths,
            shown(rows.last(), widths),
        ) + "\n"@)
    }
}

/// The table.
pub open spec fn table_text(headers: Seq<Seq<char>>, rows: Seq<Seq<Seq<char>>>) -> Seq<char> {
    let widths = widths_of(headers, rows);
    cells_line(headers, widths, headers.len()) + "\n"@ + rule_line(widths, headers.len()) + "\n"@
        + row_lines(rows, widths)
}

fn repeat(c: char, n: usize) -> (r: String)
    ensures
        r@ == times(c, n as nat),
{
    let mut out: String = String::new();
    let mut i: usize = 0;
    while i < n
        invariant
            i <= n,
            out@ == times(c, i as nat),
        decreases n - i,
    {
        out.push(c);
        i += 1;
        proof {
            assert(out@ =~= times(c, i as nat));
        }
    }
    out
}

fn push_cell(out: &mut String, cell: &str, w: usize)
    ensures
        final(out)@ == old(out)@ + (" "@ + padded(cell@, w as nat) + " |"@),
{
    let n: usize = cell.unicode_len();
    let blanks: String = repeat(
        ' ',
        if w > n {
            w - n
        } else {
            0
        },
    );
    let ghost start = out@;
    out.append(" ");
    out.append(cell);
    out.append(blanks.as_str());
    out.append(" |");
    proof {
        assert(out@ =~= start + (" "@ + padded(cell@, w as nat) + " |"@));
    }
}

/// The widths of columns as numbers.
pub open spec fn sizes(widths: Seq<usize>) -> Seq<nat> {
    Seq::new(widths.len(), |i: int| widths[i] as nat)
}

fn measure(headers: &[&str], rows: &[[String; 5]]) -> (r: Vec<usize>)
    ensures
        sizes(r@) == widths_of(headers.deep_view(), rows.deep_view()),
        r@.len() == headers@.len(),
{
    let ghost heads = headers.deep_view();
    let ghost all = rows.deep_view();
    let mut out: Vec<usize> = Vec::new();
    let mut i: usize = 0;
    while i < headers.len()
        invariant
            i <= headers@.len(),
            heads == headers.deep_view(),
            all == rows.deep_view(),
            out@.len() == i,
            forall|j: int| 0 <= j < i ==> #[trigger] out@[j] == width(heads, all, j),
        decreases headers@.len() - i,
    {
        let mut w: usize = text::count_bytes(headers[i]);
        let mut n: usize = 0;
        proof {
            assert(heads[i as int] == headers@[i as int]@);
            assert(all.take(0) =~= Seq::<Seq<Seq<char>>>::empty());
        }
        while n < rows.len()
            invariant
                n <= rows@.len(),
                heads == headers.deep_view(),
                all == rows.deep_view(),
                w == width(heads, all.take(n as int), i as int),
            decreases rows@.len() - n,
        {
            let line: &[String; 5] = &rows[n];
            proof {
                assert(all.take(n + 1).drop_last() =~= all.take(n as int));
                assert(all.take(n + 1).last() == line.deep_view());
            }
            if i < 5 {
                let b: usize = text::count_bytes(line[i].as_str());
                proof {
                    assert(line.deep_view()[i as int] == line@[i as int]@);
                }
                if b > w {
                    w = b;
                }
            }
            n += 1;
        }
        proof {
            assert(all.take(n as int) =~= all);
        }
        out.push(w);
        i += 1;
    }
    proof {
        assert(sizes(out@) =~= widths_of(heads, all));
    }
    out
}

fn push_headers(out: &mut String, headers: &[&str], widths: &Vec<usize>)
    requires
        widths@.len() == headers@.len(),
    ensures
        final(out)@ == old(out)@ + cells_line(
            headers.deep_view(),
            sizes(widths@),
            headers@.len(),
        ),
{
    let ghost start = out@;
    let ghost heads = headers.deep_view();
    out.append("|");
    let mut i: usize = 0;
    while i < headers.len()
        invariant
            i <= headers@.len(),
            widths@.len() == headers@.len(),
            heads == headers.deep_view(),
            out@ == start + cells_line(heads, sizes(widths@), i as nat),
        decreases headers@.len() - i,
    {
        let ghost so_far = cells_line(heads, sizes(widths@), i as nat);
        push_cell(out, headers[i], widths[i]);
        i += 1;
        proof {
            assert(heads[i - 1] == headers@[i - 1]@);
            assert(out@ =~= start + cells_line(heads, sizes(widths@), i as nat));
        }
    }
}

fn push_rule(out: &mut String, widths: &Vec<usize>)
    ensures
        final(out)@ == old(out)@ + rule_line(sizes(widths@), widths@.len()),
{
    let ghost start = out@;
    out.append("|");
    let mut i: usize = 0;
    while i < widths.len()
        invariant
            i <= widths@.len(),
            out@ == start + rule_line(sizes(widths@), i as nat),
        decreases widths@.len() - i,
    {
        let dashes: String = repeat('-', widths[i]);
        out.append(" ");
        out.append(dashes.as_str());
        out.append(" |");
        i += 1;
        proof {
            assert(out@ =~= start + rule_line(sizes(widths@), i as nat));
        }
    }
}

fn push_row(out: &mut String, cells: &[String; 5], widths: &Vec<usize>)
    ensures
        final(out)@ == old(out)@ + (cells_line(
            cells.deep_view(),
            sizes(widths@),
            shown(cells.deep_view(), sizes(widths@)),
        ) + "\n"@),
{
    let ghost start = out@;
    let ghost all = cells.deep_view();
    out.append("|");
    let mut i: usize = 0;
    while i < 5 && i < widths.len()
        invariant
            i <= 5,
            i <= widths@.len(),
            all == cells.deep_view(),
            out@ == start + cells_line(all, sizes(widths@), i as nat),
        decreases 5 - i,
    {
        push_cell(out, cells[i].as_str(), widths[i]);
        i += 1;
        proof {
            assert(all[i - 1] == cells@[i - 1]@);
            assert(out@ =~= start + cells_line(all, sizes(widths@), i as nat));
        }
    }
    proof {
        assert(i as nat == shown(all, sizes(widths@)));
    }
    out.append("\n");
    proof {
        assert(out@ =~= start + (cells_line(all, sizes(widths@), i as nat) + "\n"@));
    }
}

/// Draws a table in which every column is as wide as its widest cell.
pub fn render_table(headers: &[&str], rows: &[[String; 5]]) -> (r: String)
    ensures
        r@ == table_text(headers.deep_view(), rows.deep_view()),
{
    let ghost all = rows.deep_view();
    let widths: Vec<usize> = measure(headers, rows);
    let ghost w = sizes(widths@);
    let mut out: String = String::new();
    push_headers(&mut out, headers, &widths);
    out.append("\n");
    push_rule(&mut out, &widths);
    out.append("\n");
    let ghost top = out@;
    proof {
        assert(top =~= cells_line(headers.deep_view(), w, headers@.len()) + "\n"@ + rule_line(
            w,
            headers@.len(),
        ) + "\n"@);
        assert(all.take(0) =~= Seq::<Seq<Seq<char>>>::empty());
        assert(top + Seq::<char>::empty() =~= top);
    }
    let mut i: usize = 0;
    while i < rows.len()
        invariant
            i <= rows@.len(),
            all == rows.deep_view(),
            w == sizes(widths@),
            out@ == top + row_lines(all.take(i as int), w),
        decreases rows@.len() - i,
    {
        proof {
            assert(all.take(i + 1).drop_last() =~= all.take(i as int));
            assert(all.take(i + 1).last() == rows@[i as int].deep_view());
        }
        push_row(&mut out, &rows[i], &widths);
        i += 1;
        proof {
            assert(out@ =~= top + row_lines(all.take(i as int), w));
        }
    }
    proof {
        assert(all.take(i as int) =~= all);
    }
    out
}

/// The names without those of the values that are described elsewhere.
pub open spec fn operator_names(names: Seq<Seq<char>>) -> Seq<Seq<char>>
    decreases names.len(),
{
    if names.len() == 0 {
        Seq::empty()
    } else if names.last() == "headscaleInstances"@ || names.last() == "global"@ {
        operator_names(names.drop_last())
    } else {
        operator_names(names.drop_last()).push(names.last())
    }
}

fn list_operator_names(names: &Vec<String>) -> (r: Vec<String>)
    ensures
        r.deep_view() == operator_names(names.deep_view()),
{
    let ghost all = names.deep_view();
    let mut out: Vec<String> = Vec::new();
    let mut i: usize = 0;
    proof {
        assert(out.deep_view() =~= Seq::<Seq<char>>::empty());
        assert(all.take(0) =~= Seq::<Seq<char>>::empty());
    }
    while i < names.len()
        invariant
            i <= names@.len(),
            all == names.deep_view(),
            out.deep_view() == operator_names(all.take(i as int)),
        decreases names@.len() - i,
    {
        proof {
            assert(all.take(i + 1).drop_last() =~= all.take(i as int));
            assert(all.take(i + 1).last() == names@[i as int]@);
        }
        let name: &str = names[i].as_str();
        if !text::same(name, "headscaleInstances") && !text::same(name, "global") {
            let ghost so_far = out.deep_view();
            out.push(names[i].clone());
            proof {
                assert(out.deep_view() =~= so_far.push(name@));
            }
        }
        i += 1;
    }
    proof {
        assert(all.take(i as int) =~= all);
    }
    out
}

/// The rows of the values of the operator.
pub open spec fn operator_rows(schema: Json, values: Json) -> Seq<Seq<Seq<char>>> {
    match json::field_of(schema, "properties"@) {
        Some(props) => rows_under(
            Seq::empty(),
            props,
            operator_names(names_of(props)),
            required_of(schema),
            Some(values),
        ),
        None => Seq::empty(),
    }
}

/// The schema of the values of one instance.
pub open spec fn instance_schema(schema: Json) -> Option<Json> {
    match json::field_of(schema, "properties"@) {
        Some(props) => match json::field_of(props, "headscaleInstances"@) {
            Some(instances) => json::field_of(instances, "additionalProperties"@),
            None => None,
        },
        None => None,
    }
}

/// The rows of the values of one instance.
pub open spec fn instance_rows(schema: Json) -> Seq<Seq<Seq<char>>> {
    match instance_schema(schema) {
        Some(instance) => match json::field_of(instance, "properties"@) {
            Some(props) => rows_under(
                Seq::empty(),
                props,
                names_of(props),
                required_of(instance),
                None,
            ),
            None => Seq::empty(),
        },
        None => Seq::empty(),
    }
}

/// The headers of a table of values.
pub open spec fn headers_with(first: Seq<char>) -> Seq<Seq<char>> {
    Seq::empty().push(first).push("Type"@).push("Default"@).push("Required"@).push("Description"@)
}

/// The description of the chart's values.
pub open spec fn readme(schema: Json, values: Json) -> Seq<char> {
    "# Chart Values\n\n"@
        + "<!-- Generated from `chart/values.schema.json` by `task generate`. Do not edit by hand. -->\n\n"@
        + "## Operator\n\n"@ + table_text(headers_with("Value"@), operator_rows(schema, values))
        + "\n## HeadscaleInstance\n\n"@
        + "The following fields are set per-instance under `headscaleInstances.<name>`.\n\n"@
        + table_text(headers_with("Field"@), instance_rows(schema))
}

fn list_operator_rows(schema: &serde_json::Value, values: &serde_json::Value) -> (r: Vec<
    [String; 5],
>)
    ensures
        r.deep_view() == operator_rows(json::json(*schema), json::json(*values)),
{
    let mut rows: Vec<[String; 5]> = Vec::new();
    proof {
        assert(rows.deep_view() =~= Seq::<Seq<Seq<char>>>::empty());
    }
    if let Some(props) = json::field(schema, "properties") {
        let names: Vec<String> = list_operator_names(&list_names(props));
        let needed: Vec<String> = required_fields(schema);
        proof {
            reveal_strlit("");
            assert(""@ =~= Seq::<char>::empty());
        }
        collect_under(&mut rows, "", props, &names, &needed, Some(values));
        proof {
            assert(rows.deep_view() =~= operator_rows(json::json(*schema), json::json(*values)));
        }
    }
    rows
}

fn list_instance_rows(schema: &serde_json::Value) -> (r: Vec<[String; 5]>)
    ensures
        r.deep_view() == instance_rows(json::json(*schema)),
{
    let mut rows: Vec<[String; 5]> = Vec::new();
    proof {
        assert(rows.deep_view() =~= Seq::<Seq<Seq<char>>>::empty());
    }
    let instances: Option<&serde_json::Value> = match json::field(schema, "properties") {
        Some(props) => json::field(props, "headscaleInstances"),
        None => None,
    };
    let instance: Option<&serde_json::Value> = match instances {
        Some(instances) => json::field(instances, "additionalProperties"),
        None => None,
    };
    if let Some(instance) = instance {
        if let Some(props) = json::field(instance, "properties") {
            let names: Vec<String> = list_names(props);
            let needed: Vec<String> = required_fields(instance);
            proof {
                reveal_strlit("");
                assert(""@ =~= Seq::<char>::empty());
            }
            collect_under(&mut rows, "", props, &names, &needed, None);
            proof {
                assert(rows.deep_view() =~= instance_rows(json::json(*schema)));
            }
        }
    }
    rows
}

fn render_values(first: &str, rows: &Vec<[String; 5]>) -> (r: String)
    ensures
        r@ == table_text(headers_with(first@), rows.deep_view()),
{
    let headers: [&str; 5] = [first, "Type", "Default", "Required", "Description"];
    let columns: &[&str] = headers.as_slice();
    let lines: &[[String; 5]] = rows.as_slice();
    proof {
        assert(columns.deep_view() =~= headers_with(first@));
        assert(lines.deep_view() =~= rows.deep_view());
    }
    render_table(columns, lines)
}

/// Writes the description of the chart's values.
pub fn generate_chart_readme(schema: &serde_json::Value, values: &serde_json::Value) -> (r: String)
    ensures
        r@ == readme(json::json(*schema), json::json(*values)),
{
    let operator: String = render_values("Value", &list_operator_rows(schema, values));
    let instance: String = render_values("Field", &list_instance_rows(schema));
    text::cat7(
        "# Chart Values\n\n",
        "<!-- Generated from `chart/values.schema.json` by `task generate`. Do not edit by hand. -->\n\n",
        "## Operator\n\n",
        operator.as_str(),
        "\n## HeadscaleInstance\n\n",
        "The following fields are set per-instance under `headscaleInstances.<name>`.\n\n",
        instance.as_str(),
    )
}

/// A source of the description cannot be read.
pub enum SourceError {
    /// The schema is not valid JSON.
    Schema(serde_json::Error),
    /// The values are not valid YAML.
    Values(serde_yaml::Error),
}

/// Writes the description of the chart's values from the texts of the schema and
/// of the values.
pub fn generate_from_texts(schema: &str, values: &str) -> (r: Result<String, SourceError>)
    ensures
        match json::json_text(schema@) {
            Some(s) => match json::yaml_value(values@) {
                Some(v) => r matches Ok(text) && text@ == readme(s, v),
                None => r matches Err(SourceError::Values(_)),
            },
            None => r matches Err(SourceError::Schema(_)),
        },
{
    let schema: serde_json::Value = match json::parse_json(schema) {
        Ok(schema) => schema,
        Err(e) => {
            return Err(SourceError::Schema(e));
        },
    };
    match json::parse_yaml(values) {
        Ok(values) => Ok(generate_chart_readme(&schema, &values)),
        Err(e) => Err(SourceError::Values(e)),
    }
}

proof fn parts_lack_the_mark(s: Seq<char>, at: char)
    ensures
        text::parts(s, at).len() > 0,
        forall|i: int|
            0 <= i < text::parts(s, at).len() ==> !(#[trigger] text::parts(s, at)[i]).contains(at),
    decreases s.len(),
{
    if s.len() > 0 {
        parts_lack_the_mark(s.drop_last(), at);
        let before = text::parts(s.drop_last(), at);
        let all = text::parts(s, at);
        assert forall|i: int| 0 <= i < all.len() implies !(#[trigger] all[i]).contains(at) by {
            if s.last() == at {
                if i < before.len() {
                    assert(all[i] == before[i]);
                }
            } else if i < before.len() - 1 {
                assert(all[i] == before[i]);
            } else {
                let old_part = before[before.len() - 1];
                assert(all[i] == old_part.push(s.last()));
                if all[i].contains(at) {
                    let k = choose|k: int| 0 <= k < all[i].len() && all[i][k] == at;
                    assert(old_part[k] == at);
                    assert(old_part.contains(at));
                }
            }
        }
    }
}

proof fn trimming_adds_nothing(s: Seq<char>, c: char)
    requires
        !s.contains(c),
    ensures
        !text::trimmed_start(s).contains(c),
        !text::trimmed_end(s).contains(c),
    decreases s.len(),
{
    if s.len() > 0 {
        let front = s.drop_first();
        let back = s.drop_last();
        assert(!front.contains(c)) by {
            if front.contains(c) {
                let k = choose|k: int| 0 <= k < front.len() && front[k] == c;
                assert(s[k + 1] == c);
            }
        }
        assert(!back.contains(c)) by {
            if back.contains(c) {
                let k = choose|k: int| 0 <= k < back.len() && back[k] == c;
                assert(s[k] == c);
            }
        }
        trimming_adds_nothing(front, c);
        trimming_adds_nothing(back, c);
    }
}

proof fn filled_lines_lack(lines: Seq<Seq<char>>, c: char)
    requires
        forall|i: int| 0 <= i < lines.len() ==> !(#[trigger] lines[i]).contains(c),
    ensures
        forall|i: int| 0 <= i < filled(lines).len() ==> !(#[trigger] filled(lines)[i]).contains(c),
    decreases lines.len(),
{
    if lines.len() > 0 {
        let rest = lines.drop_last();
        assert forall|i: int| 0 <= i < rest.len() implies !(#[trigger] rest[i]).contains(c) by {
            assert(rest[i] == lines[i]);
        }
        filled_lines_lack(rest, c);
        assert(!lines[lines.len() - 1].contains(c));
        trimming_adds_nothing(lines.last(), c);
        trimming_adds_nothing(text::trimmed_start(lines.last()), c);
        trimming_adds_nothing(text::trimmed_end(lines.last()), c);
        let all = filled(lines);
        assert forall|i: int| 0 <= i < all.len() implies !(#[trigger] all[i]).contains(c) by {
            if i < filled(rest).len() {
                assert(all[i] == filled(rest)[i]);
            }
        }
    }
}

proof fn sum_lacks(a: Seq<char>, b: Seq<char>, c: char)
    requires
        !a.contains(c),
        !b.contains(c),
    ensures
        !(a + b).contains(c),
{
    if (a + b).contains(c) {
        let k = choose|k: int| 0 <= k < (a + b).len() && (a + b)[k] == c;
        if k < a.len() {
            assert(a[k] == c);
        } else {
            assert(b[k - a.len()] == c);
        }
    }
}

proof fn joined_lacks(items: Seq<Seq<char>>, sep: Seq<char>, c: char)
    requires
        !sep.contains(c),
        forall|i: int| 0 <= i < items.len() ==> !(#[trigger] items[i]).contains(c),
    ensures
        !text::joined(items, sep).contains(c),
    decreases items.len(),
{
    if items.len() > 0 {
        let rest = items.drop_last();
        assert forall|i: int| 0 <= i < rest.len() implies !(#[trigger] rest[i]).contains(c) by {
            assert(rest[i] == items[i]);
        }
        joined_lacks(rest, sep, c);
        assert(!items[items.len() - 1].contains(c));
        sum_lacks(text::joined(rest, sep), sep, c);
        sum_lacks(text::joined(rest, sep) + sep, items.last(), c);
    }
}

proof fn replaced_lacks(s: Seq<char>, from: Seq<char>, to: Seq<char>, c: char)
    requires
        !s.contains(c),
        !to.contains(c),
    ensures
        !text::replaced(s, from, to).contains(c),
    decreases s.len(),
{
    if s.len() > 0 && from.len() > 0 {
        let rest = if from.is_prefix_of(s) {
            s.skip(from.len() as int)
        } else {
            s.skip(1)
        };
        let front = if from.is_prefix_of(s) {
            to
        } else {
            Seq::empty().push(s[0])
        };
        assert(!rest.contains(c)) by {
            if rest.contains(c) {
                let k = choose|k: int| 0 <= k < rest.len() && rest[k] == c;
                assert(s[s.len() - rest.len() + k] == c);
            }
        }
        assert(!front.contains(c)) by {
            if !from.is_prefix_of(s) && front.contains(c) {
                assert(s[0] == c);
            }
        }
        replaced_lacks(rest, from, to, c);
        sum_lacks(front, text::replaced(rest, from, to), c);
    }
}

// Laws.

/// A description does not break the line of its row.
pub proof fn description_stays_on_its_line(s: Seq<char>)
    ensures
        !one_line(s).contains('\n'),
{
    reveal_strlit(" ");
    reveal_strlit("\\|");
    parts_lack_the_mark(s, '\n');
    filled_lines_lack(text::parts(s, '\n'), '\n');
    assert(!" "@.contains('\n'));
    joined_lacks(filled(text::parts(s, '\n')), " "@, '\n');
    assert(!"\\|"@.contains('\n'));
    replaced_lacks(
        text::joined(filled(text::parts(s, '\n')), " "@),
        "|"@,
        "\\|"@,
        '\n',
    );
}

/// Every property has a row of its own, with its path in it.
pub proof fn property_has_a_row(
    path: Seq<char>,
    prop: Json,
    required: bool,
    value: Option<Json>,
)
    ensures
        rows_of(path, prop, required, value).len() > 0,
        rows_of(path, prop, required, value)[0] == row(path, prop, required, value),
        rows_of(path, prop, required, value)[0][0] == code(path),
{
}

/// A description is put on one line from its lines: each without the blanks around it, and
/// without those that are blank.
pub proof fn lines_are_trimmed_one_by_one(first: Seq<Seq<char>>, second: Seq<Seq<char>>)
    ensures
        filled(first + second) == filled(first) + filled(second),
        first.len() == 1 && text::is_blank(first[0]) ==> filled(first).len() == 0,
        first.len() == 1 && !text::is_blank(first[0]) ==> filled(first) == seq![
            text::trimmed(first[0]),
        ],
    decreases second.len(),
{
    if second.len() == 0 {
        assert(first + second =~= first);
        assert(filled(first) + filled(second) =~= filled(first));
    } else {
        lines_are_trimmed_one_by_one(first, second.drop_last());
        assert((first + second).drop_last() =~= first + second.drop_last());
        assert((first + second).last() == second.last());
        assert(filled(first + second) =~= filled(first) + filled(second));
    }
    if first.len() == 1 {
        reveal_with_fuel(filled, 2);
        text::blank_texts_are_trimmed_to_nothing(first[0]);
        assert(first.drop_last() =~= Seq::<Seq<char>>::empty());
        assert(first.last() == first[0]);
        if !text::is_blank(first[0]) {
            assert(filled(first) =~= seq![text::trimmed(first[0])]);
        }
    }
}

proof fn bar_stands_where_it_is(s: Seq<char>, i: int)
    ensures
        text::stands_at(s, "|"@, i) ==> 0 <= i < s.len() && s[i] == '|',
{
    reveal_strlit("|");
    if text::stands_at(s, "|"@, i) {
        assert(s.subrange(i, i + 1)[0] == "|"@[0]);
    }
}

/// A description without bars is its lines, with a blank between each two.
pub proof fn lines_are_put_on_one(s: Seq<char>)
    requires
        !text::joined(filled(text::parts(s, '\n')), " "@).contains('|'),
    ensures
        one_line(s) == text::joined(filled(text::parts(s, '\n')), " "@),
{
    let line = text::joined(filled(text::parts(s, '\n')), " "@);
    assert forall|i: int| !text::stands_at(line, "|"@, i) by {
        bar_stands_where_it_is(line, i);
        if text::stands_at(line, "|"@, i) {
            assert(line[i] == '|');
        }
    }
    text::nothing_to_replace(line, "|"@, "\\|"@);
}

/// A bar in a description gets a backslash before it, and what stands before the first bar
/// stays as it is.
pub proof fn bars_get_a_backslash(s: Seq<char>, before: Seq<char>, after: Seq<char>)
    requires
        text::joined(filled(text::parts(s, '\n')), " "@) == before + "|"@ + after,
        !before.contains('|'),
    ensures
        one_line(s) == before + "\\|"@ + text::replaced(after, "|"@, "\\|"@),
{
    let line = before + "|"@ + after;
    reveal_strlit("|");
    assert forall|i: int| 0 <= i < before.len() implies !text::stands_at(line, "|"@, i) by {
        bar_stands_where_it_is(line, i);
        if text::stands_at(line, "|"@, i) {
            assert(before[i] == '|');
        }
    }
    text::first_part_is_replaced(before, "|"@, after, "\\|"@);
}

/// Of a list only the texts count, in their order.
pub proof fn only_texts_count(first: Seq<Json>, second: Seq<Json>)
    ensures
        texts(first + second) == texts(first) + texts(second),
        first.len() == 1 && first[0] is Text ==> texts(first) == seq![first[0]->Text_0],
        first.len() == 1 && !(first[0] is Text) ==> texts(first).len() == 0,
    decreases second.len(),
{
    if second.len() == 0 {
        assert(first + second =~= first);
        assert(texts(first) + texts(second) =~= texts(first));
    } else {
        only_texts_count(first, second.drop_last());
        assert((first + second).drop_last() =~= first + second.drop_last());
        assert((first + second).last() == second.last());
        assert(texts(first + second) =~= texts(first) + texts(second));
    }
    if first.len() == 1 {
        reveal_with_fuel(texts, 2);
        assert(first.drop_last() =~= Seq::<Json>::empty());
        assert(first.last() == first[0]);
        if first[0] is Text {
            assert(texts(first) =~= seq![first[0]->Text_0]);
        }
    }
}

/// A schema requires the texts in its `required` list, and without one it requires nothing.
pub proof fn required_fields_are_listed(schema: Map<Seq<char>, Json>, items: Seq<Json>)
    ensures
        schema.dom().contains("required"@) && schema["required"@] == Json::Array(items)
            ==> required_of(Json::Object(schema)) == texts(items),
        !schema.dom().contains("required"@) ==> required_of(Json::Object(schema)).len() == 0,
{
}

proof fn type_words_differ()
    ensures
        "string"@ != "boolean"@,
        "string"@ != "integer"@,
        "string"@ != "number"@,
        "string"@ != "array"@,
        "string"@ != "object"@,
        "boolean"@ != "integer"@,
        "boolean"@ != "number"@,
        "boolean"@ != "array"@,
        "boolean"@ != "object"@,
        "integer"@ != "number"@,
        "integer"@ != "array"@,
        "integer"@ != "object"@,
        "number"@ != "array"@,
        "number"@ != "object"@,
        "array"@ != "object"@,
{
    reveal_strlit("string");
    reveal_strlit("boolean");
    reveal_strlit("integer");
    reveal_strlit("number");
    reveal_strlit("array");
    reveal_strlit("object");
    assert("string"@[0] == 's' && "boolean"@[0] == 'b' && "integer"@[0] == 'i');
    assert("number"@[0] == 'n' && "array"@[0] == 'a' && "object"@[0] == 'o');
}

/// A property with choices has them for its type. Any other has the word for its `type`,
/// where a list says whether it is one of texts.
pub proof fn types_have_their_words(prop: Map<Seq<char>, Json>, choices: Seq<Json>)
    ensures
        prop.dom().contains("enum"@) && prop["enum"@] == Json::Array(choices) ==> type_of(
            Json::Object(prop),
        ) == text::joined(texts(choices), " / "@),
        !prop.dom().contains("enum"@) ==> {
            let is_typed = prop.dom().contains("type"@);
            let t = prop["type"@];
            let of_texts = prop.dom().contains("items"@) && prop["items"@] is Object
                && prop["items"@]->Object_0.dom().contains("type"@)
                && prop["items"@]->Object_0["type"@] == Json::Text("string"@);
            let word = type_of(Json::Object(prop));
            &&& !is_typed || !(t is Text) ==> word == "any"@
            &&& is_typed && t == Json::Text("string"@) ==> word == "string"@
            &&& is_typed && t == Json::Text("boolean"@) ==> word == "bool"@
            &&& is_typed && t == Json::Text("integer"@) ==> word == "integer"@
            &&& is_typed && t == Json::Text("number"@) ==> word == "number"@
            &&& is_typed && t == Json::Text("object"@) ==> word == "object"@
            &&& is_typed && t == Json::Text("array"@) && of_texts ==> word == "list(string)"@
            &&& is_typed && t == Json::Text("array"@) && !of_texts ==> word == "list"@
        },
{
    type_words_differ();
}

/// A default is written as code: words and numbers as they are, an empty text as two quotes,
/// and empty lists and objects as their brackets. Nothing, and lists and objects with
/// content, are a dash.
pub proof fn defaults_are_written_as_code(
    n: Seq<char>,
    s: Seq<char>,
    items: Seq<Json>,
    m: Map<Seq<char>, Json>,
)
    ensures
        default_word(Json::Null) == "-"@,
        default_word(Json::Bool(true)) == "`"@ + "true"@ + "`"@,
        default_word(Json::Bool(false)) == "`"@ + "false"@ + "`"@,
        default_word(Json::Number(n)) == "`"@ + n + "`"@,
        s.len() > 0 ==> default_word(Json::Text(s)) == "`"@ + s + "`"@,
        s.len() == 0 ==> default_word(Json::Text(s)) == "`"@ + "\"\""@ + "`"@,
        items.len() == 0 ==> default_word(Json::Array(items)) == "`"@ + "[]"@ + "`"@,
        items.len() > 0 ==> default_word(Json::Array(items)) == "-"@,
        m.dom().is_empty() ==> default_word(Json::Object(m)) == "`"@ + "{}"@ + "`"@,
        !m.dom().is_empty() ==> default_word(Json::Object(m)) == "-"@,
{
    if m.dom().is_empty() {
        assert(m.dom() =~= Set::<Seq<char>>::empty());
    }
}

/// A row has five cells: the path and the type as code, the default, whether the property is
/// required, and its description. A value takes the place of the default that the schema
/// gives; what is not there is a dash.
pub proof fn rows_have_five_cells(
    path: Seq<char>,
    prop: Map<Seq<char>, Json>,
    required: bool,
    value: Option<Json>,
)
    ensures
        ({
            let cells = row(path, Json::Object(prop), required, value);
            &&& cells.len() == 5
            &&& cells[0] == "`"@ + path + "`"@
            &&& cells[1] == "`"@ + type_of(Json::Object(prop)) + "`"@
            &&& value is Some ==> cells[2] == default_word(value->0)
            &&& value is None && prop.dom().contains("default"@) ==> cells[2] == default_word(
                prop["default"@],
            )
            &&& value is None && !prop.dom().contains("default"@) ==> cells[2] == "-"@
            &&& required ==> cells[3] == "yes"@
            &&& !required ==> cells[3] == "no"@
            &&& prop.dom().contains("description"@) && prop["description"@] is Text ==> cells[4]
                == one_line(prop["description"@]->Text_0)
            &&& !prop.dom().contains("description"@) ==> cells[4] == one_line("-"@)
        }),
{
}

/// The properties under a property have their rows behind its own, with its path and a dot
/// before their names, and with their part of its value.
pub proof fn inner_properties_come_behind(
    path: Seq<char>,
    prop: Map<Seq<char>, Json>,
    required: bool,
    value: Option<Json>,
)
    ensures
        !prop.dom().contains("properties"@) ==> rows_of(path, Json::Object(prop), required, value)
            == seq![row(path, Json::Object(prop), required, value)],
        prop.dom().contains("properties"@) ==> rows_of(path, Json::Object(prop), required, value)
            == seq![row(path, Json::Object(prop), required, value)] + rows_under(
            path + "."@,
            prop["properties"@],
            names_of(prop["properties"@]),
            required_of(Json::Object(prop)),
            value,
        ),
{
    assert(Seq::<Seq<Seq<char>>>::empty().push(row(path, Json::Object(prop), required, value))
        =~= seq![row(path, Json::Object(prop), required, value)]);
}

/// Properties have their rows in the order of their names, each for itself: one that is not
/// there has none, and one that is there is required where its name is listed.
pub proof fn properties_have_rows_one_by_one(
    prefix: Seq<char>,
    props: Map<Seq<char>, Json>,
    first: Seq<Seq<char>>,
    second: Seq<Seq<char>>,
    required: Seq<Seq<char>>,
    value: Option<Json>,
)
    ensures
        rows_under(prefix, Json::Object(props), first + second, required, value) == rows_under(
            prefix,
            Json::Object(props),
            first,
            required,
            value,
        ) + rows_under(prefix, Json::Object(props), second, required, value),
        first.len() == 1 && !props.dom().contains(first[0]) ==> rows_under(
            prefix,
            Json::Object(props),
            first,
            required,
            value,
        ).len() == 0,
        first.len() == 1 && props.dom().contains(first[0]) ==> rows_under(
            prefix,
            Json::Object(props),
            first,
            required,
            value,
        ) == rows_of(
            prefix + first[0],
            props[first[0]],
            required.contains(first[0]),
            if value is Some && value->0 is Object && value->0->Object_0.dom().contains(first[0]) {
                Some(value->0->Object_0[first[0]])
            } else {
                None
            },
        ),
    decreases second.len(),
{
    let all = Json::Object(props);
    if second.len() == 0 {
        assert(first + second =~= first);
        assert(rows_under(prefix, all, first, required, value) + rows_under(
            prefix,
            all,
            second,
            required,
            value,
        ) =~= rows_under(prefix, all, first, required, value));
    } else {
        properties_have_rows_one_by_one(
            prefix,
            props,
            first,
            second.drop_last(),
            required,
            value,
        );
        assert((first + second).drop_last() =~= first + second.drop_last());
        assert((first + second).last() == second.last());
        assert(rows_under(prefix, all, first + second, required, value) =~= rows_under(
            prefix,
            all,
            first,
            required,
            value,
        ) + rows_under(prefix, all, second, required, value));
    }
    if first.len() == 1 {
        assert(first.drop_last() =~= Seq::<Seq<char>>::empty());
        assert(rows_under(prefix, all, first.drop_last(), required, value)
            =~= Seq::<Seq<Seq<char>>>::empty());
        assert(first.last() == first[0]);
    }
}

/// The names of properties come in order, each once, and are those of the object.
pub proof fn names_are_the_keys_in_order(props: Map<Seq<char>, Json>, name: Seq<char>)
    requires
        props.dom().finite(),
    ensures
        names_of(Json::Object(props)).contains(name) <==> props.dom().contains(name),
        forall|i: int, j: int|
            0 <= i < j < names_of(Json::Object(props)).len() ==> text::before(
                #[trigger] names_of(Json::Object(props))[i],
                #[trigger] names_of(Json::Object(props))[j],
            ),
{
    table::finite_is_sorted(props.dom());
    let names = table::sorted(props.dom());
    assert(names.to_set().contains(name) <==> names.contains(name));
}

/// A column is as wide as its header or the widest of its cells, whichever is wider, and not
/// wider than that.
pub proof fn columns_are_as_wide_as_needed(
    headers: Seq<Seq<char>>,
    rows: Seq<Seq<Seq<char>>>,
    i: int,
)
    requires
        0 <= i < headers.len(),
        forall|n: int| 0 <= n < rows.len() ==> i < (#[trigger] rows[n]).len(),
    ensures
        widths_of(headers, rows).len() == headers.len(),
        widths_of(headers, rows)[i] >= text::byte_len(headers[i]),
        forall|n: int|
            0 <= n < rows.len() ==> widths_of(headers, rows)[i] >= text::byte_len(
                (#[trigger] rows[n])[i],
            ),
        widths_of(headers, rows)[i] == text::byte_len(headers[i]) || exists|n: int|
            0 <= n < rows.len() && widths_of(headers, rows)[i] == text::byte_len(
                (#[trigger] rows[n])[i],
            ),
    decreases rows.len(),
{
    if rows.len() > 0 {
        let fewer = rows.drop_last();
        assert forall|n: int| 0 <= n < fewer.len() implies i < (#[trigger] fewer[n]).len() by {
            assert(fewer[n] == rows[n]);
        }
        columns_are_as_wide_as_needed(headers, fewer, i);
        let w = width(headers, rows, i);
        assert(width(headers, fewer, i) == widths_of(headers, fewer)[i]);
        assert(i < rows[rows.len() - 1].len());
        assert forall|n: int| 0 <= n < rows.len() implies w >= text::byte_len(
            (#[trigger] rows[n])[i],
        ) by {
            if n < fewer.len() {
                assert(fewer[n] == rows[n]);
            }
        }
        if w == width(headers, fewer, i) {
            if w != text::byte_len(headers[i]) {
                let n = choose|n: int|
                    0 <= n < fewer.len() && w == text::byte_len((#[trigger] fewer[n])[i]);
                assert(rows[n] == fewer[n]);
            }
        } else {
            assert(rows[rows.len() - 1] == rows.last());
        }
    }
}

/// A cell begins with its text and goes on with blanks, up to the width of its column; a
/// text that is wider is not cut.
pub proof fn cells_are_padded(s: Seq<char>, w: nat, i: int)
    ensures
        s.is_prefix_of(padded(s, w)),
        padded(s, w).len() == (if s.len() < w {
            w
        } else {
            s.len()
        }),
        s.len() <= i < padded(s, w).len() ==> padded(s, w)[i] == ' ',
        times('-', w).len() == w,
        0 <= i < w ==> times('-', w)[i] == '-',
{
    assert(padded(s, w).take(s.len() as int) =~= s);
}

/// A line is drawn cell by cell, with bars between them and blanks around them, and so is the
/// line under the headers, with dashes.
pub proof fn lines_are_drawn_cell_by_cell(cells: Seq<Seq<char>>, widths: Seq<nat>, n: nat)
    ensures
        cells_line(cells, widths, 0) == "|"@,
        rule_line(widths, 0) == "|"@,
        n < cells.len() && n < widths.len() ==> cells_line(cells, widths, n + 1) == cells_line(
            cells,
            widths,
            n,
        ) + (" "@ + padded(cells[n as int], widths[n as int]) + " |"@),
        n < widths.len() ==> rule_line(widths, n + 1) == rule_line(widths, n) + (" "@ + Seq::new(
            widths[n as int],
            |i: int| '-',
        ) + " |"@),
        shown(cells, widths) <= cells.len(),
        shown(cells, widths) <= widths.len(),
        shown(cells, widths) == cells.len() || shown(cells, widths) == widths.len(),
{
    if n < widths.len() {
        assert(times('-', widths[n as int]) =~= Seq::new(widths[n as int], |i: int| '-'));
    }
}

/// A table has a line for its headers, one with dashes under it, and one for every row, in
/// their order.
pub proof fn tables_are_drawn_row_by_row(
    headers: Seq<Seq<char>>,
    first: Seq<Seq<Seq<char>>>,
    second: Seq<Seq<Seq<char>>>,
    widths: Seq<nat>,
)
    ensures
        row_lines(first + second, widths) == row_lines(first, widths) + row_lines(second, widths),
        first.len() == 0 ==> row_lines(first, widths).len() == 0,
        first.len() == 1 ==> row_lines(first, widths) == cells_line(
            first[0],
            widths,
            shown(first[0], widths),
        ) + "\n"@,
        table_text(headers, first) == cells_line(
            headers,
            widths_of(headers, first),
            headers.len(),
        ) + "\n"@ + rule_line(widths_of(headers, first), headers.len()) + "\n"@ + row_lines(
            first,
            widths_of(headers, first),
        ),
    decreases second.len(),
{
    if second.len() == 0 {
        assert(first + second =~= first);
        assert(row_lines(first, widths) + row_lines(second, widths) =~= row_lines(first, widths));
    } else {
        tables_are_drawn_row_by_row(headers, first, second.drop_last(), widths);
        assert((first + second).drop_last() =~= first + second.drop_last());
        assert((first + second).last() == second.last());
        assert(row_lines(first + second, widths) =~= row_lines(first, widths) + row_lines(
            second,
            widths,
        ));
    }
    if first.len() == 1 {
        reveal_with_fuel(row_lines, 2);
        assert(first.drop_last() =~= Seq::<Seq<Seq<char>>>::empty());
        assert(first.last() == first[0]);
        assert(row_lines(first, widths) =~= cells_line(
            first[0],
            widths,
            shown(first[0], widths),
        ) + "\n"@);
    }
}

/// The values that are described elsewhere, `headscaleInstances` and `global`, are left out
/// of the operator's, and no others; the rest keep their order.
pub proof fn operator_values_are_the_others(first: Seq<Seq<char>>, second: Seq<Seq<char>>)
    ensures
        operator_names(first + second) == operator_names(first) + operator_names(second),
        first.len() == 1 ==> operator_names(first) == (if first[0] == "headscaleInstances"@
            || first[0] == "global"@ {
            Seq::empty()
        } else {
            first
        }),
    decreases second.len(),
{
    if second.len() == 0 {
        assert(first + second =~= first);
        assert(operator_names(first) + operator_names(second) =~= operator_names(first));
    } else {
        operator_values_are_the_others(first, second.drop_last());
        assert((first + second).drop_last() =~= first + second.drop_last());
        assert((first + second).last() == second.last());
        assert(operator_names(first + second) =~= operator_names(first) + operator_names(second));
    }
    if first.len() == 1 {
        reveal_with_fuel(operator_names, 2);
        assert(first.drop_last() =~= Seq::<Seq<char>>::empty());
        assert(Seq::<Seq<char>>::empty().push(first[0]) =~= first);
        assert(first.last() == first[0]);
    }
}

/// The rows of the operator are those of the schema's properties, with the values of the
/// chart, and those of an instance are those of the properties of an instance, with none.
pub proof fn rows_are_taken_from_the_schema(
    schema: Map<Seq<char>, Json>,
    props: Map<Seq<char>, Json>,
    instances: Map<Seq<char>, Json>,
    instance: Map<Seq<char>, Json>,
    values: Json,
)
    requires
        schema.dom().contains("properties"@),
        schema["properties"@] == Json::Object(props),
        props.dom().contains("headscaleInstances"@),
        props["headscaleInstances"@] == Json::Object(instances),
        instances.dom().contains("additionalProperties"@),
        instances["additionalProperties"@] == Json::Object(instance),
        instance.dom().contains("properties"@),
    ensures
        operator_rows(Json::Object(schema), values) == rows_under(
            Seq::empty(),
            Json::Object(props),
            operator_names(names_of(Json::Object(props))),
            required_of(Json::Object(schema)),
            Some(values),
        ),
        instance_rows(Json::Object(schema)) == rows_under(
            Seq::empty(),
            instance["properties"@],
            names_of(instance["properties"@]),
            required_of(Json::Object(instance)),
            None,
        ),
{
}

/// The description has a section for the operator and one for an instance, in this order,
/// each with the table of its values under its five headers.
pub proof fn description_holds_both_tables(
    schema: Json,
    values: Json,
    operator_headers: Seq<Seq<char>>,
    instance_headers: Seq<Seq<char>>,
)
    requires
        operator_headers == seq!["Value"@, "Type"@, "Default"@, "Required"@, "Description"@],
        instance_headers == seq!["Field"@, "Type"@, "Default"@, "Required"@, "Description"@],
    ensures
        exists|before: Seq<char>, between: Seq<char>|
            {
                &&& "# Chart Values\n\n"@.is_prefix_of(before)
                &&& "## Operator\n\n"@.is_suffix_of(before)
                &&& "\n## HeadscaleInstance\n\n"@.is_prefix_of(between)
                &&& readme(schema, values) == #[trigger] (before + table_text(
                    operator_headers,
                    operator_rows(schema, values),
                ) + between + table_text(instance_headers, instance_rows(schema)))
            },
{
    assert(headers_with("Value"@) =~= operator_headers);
    assert(headers_with("Field"@) =~= instance_headers);
    let title = "# Chart Values\n\n"@;
    let before = title
        + "<!-- Generated from `chart/values.schema.json` by `task generate`. Do not edit by hand. -->\n\n"@
        + "## Operator\n\n"@;
    let heading = "\n## HeadscaleInstance\n\n"@;
    let between = heading
        + "The following fields are set per-instance under `headscaleInstances.<name>`.\n\n"@;
    assert(before.take(title.len() as int) =~= title);
    assert(between.take(heading.len() as int) =~= heading);
    let last = "## Operator\n\n"@;
    assert(before.skip(before.len() - last.len()) =~= last);
    assert(readme(schema, values) =~= before + table_text(
        operator_headers,
        operator_rows(schema, values),
    ) + between + table_text(instance_headers, instance_rows(schema)));
}

} // verus!
