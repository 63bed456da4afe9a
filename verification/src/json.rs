//! JSON text without white space, as the wire format and the signatures use it.

use crate::text::{
    decimal, decimal_is_digits, decimal_is_injective, decimal_text, join3, lower_digits,
};
use vstd::prelude::*;

verus! {

/// A JSON value. Fields keep their order.
pub enum Tree {
    Null,
    Number(nat),
    Text(Seq<char>),
    List(Seq<Tree>),
    Object(Seq<(Seq<char>, Tree)>),
}

/// One character inside a JSON string.
pub open spec fn escape(c: char) -> Seq<char> {
    if c == '"' {
        seq!['\\', '"']
    } else if c == '\\' {
        seq!['\\', '\\']
    } else if c == '\u{8}' {
        seq!['\\', 'b']
    } else if c == '\t' {
        seq!['\\', 't']
    } else if c == '\n' {
        seq!['\\', 'n']
    } else if c == '\u{c}' {
        seq!['\\', 'f']
    } else if c == '\r' {
        seq!['\\', 'r']
    } else if '\u{20}' > c {
        seq![
            '\\',
            'u',
            '0',
            '0',
            lower_digits()[c as u32 as int / 16],
            lower_digits()[c as u32 as int % 16],
        ]
    } else {
        seq![c]
    }
}

/// A text inside a JSON string.
pub open spec fn escaped(text: Seq<char>) -> Seq<char>
    decreases text.len(),
{
    if text.len() == 0 {
        seq![]
    } else {
        escape(text[0]) + escaped(text.drop_first())
    }
}

/// A JSON string.
pub open spec fn quoted(text: Seq<char>) -> Seq<char> {
    seq!['"'] + escaped(text) + seq!['"']
}

/// The JSON text of a value.
pub open spec fn render(tree: Tree) -> Seq<char>
    decreases tree,
{
    match tree {
        Tree::Null => "null"@,
        Tree::Number(n) => decimal(n),
        Tree::Text(text) => quoted(text),
        Tree::List(items) => seq!['['] + render_items(items) + seq![']'],
        Tree::Object(fields) => seq!['{'] + render_fields(fields) + seq!['}'],
    }
}

/// The items of a list.
pub open spec fn render_items(items: Seq<Tree>) -> Seq<char>
    decreases items,
{
    if items.len() == 0 {
        seq![]
    } else {
        render(items[0]) + render_more_items(items.drop_first())
    }
}

/// The items of a list behind the first.
pub open spec fn render_more_items(items: Seq<Tree>) -> Seq<char>
    decreases items,
{
    if items.len() == 0 {
        seq![]
    } else {
        seq![','] + render(items[0]) + render_more_items(items.drop_first())
    }
}

/// The fields of an object.
pub open spec fn render_fields(fields: Seq<(Seq<char>, Tree)>) -> Seq<char>
    decreases fields,
{
    if fields.len() == 0 {
        seq![]
    } else {
        quoted(fields[0].0) + seq![':'] + render(fields[0].1) + render_more_fields(
            fields.drop_first(),
        )
    }
}

/// The fields of an object behind the first.
pub open spec fn render_more_fields(fields: Seq<(Seq<char>, Tree)>) -> Seq<char>
    decreases fields,
{
    if fields.len() == 0 {
        seq![]
    } else {
        seq![','] + quoted(fields[0].0) + seq![':'] + render(fields[0].1) + render_more_fields(
            fields.drop_first(),
        )
    }
}

/// Whether a text does not go on with a digit.
pub open spec fn ends_number(rest: Seq<char>) -> bool {
    rest.len() == 0 || !('0' <= rest[0] <= '9')
}

proof fn lemma_decimal_prefix(a: nat, b: nat, x: Seq<char>, y: Seq<char>)
    requires
        decimal(a) + x == decimal(b) + y,
        ends_number(x),
        ends_number(y),
    ensures
        a == b,
        x == y,
{
    let whole = decimal(a) + x;
    decimal_is_digits(a);
    decimal_is_digits(b);
    let n = decimal(a).len();
    let m = decimal(b).len();
    if n < m {
        assert(whole[n as int] == decimal(b)[n as int]);
        assert(whole[n as int] == x[0]);
    }
    if m < n {
        assert(whole[m as int] == decimal(a)[m as int]);
        assert((decimal(b) + y)[m as int] == y[0]);
    }
    assert(decimal(a) =~= whole.take(n as int));
    assert(decimal(b) =~= (decimal(b) + y).take(m as int));
    decimal_is_injective(a, b);
    assert(x =~= whole.skip(n as int));
    assert(y =~= (decimal(b) + y).skip(m as int));
}

/// What a character is written as tells the character.
proof fn lemma_escape_prefix(c: char, d: char, x: Seq<char>, y: Seq<char>)
    requires
        escape(c) + x == escape(d) + y,
    ensures
        c == d,
        x == y,
{
    let whole = escape(c) + x;
    let other = escape(d) + y;
    assert(whole[0] == escape(c)[0]);
    assert(other[0] == escape(d)[0]);
    if whole[0] == '\\' {
        assert(whole[1] == escape(c)[1]);
        assert(other[1] == escape(d)[1]);
        if whole[1] == 'u' {
            assert(whole[4] == escape(c)[4]);
            assert(other[4] == escape(d)[4]);
            assert(whole[5] == escape(c)[5]);
            assert(other[5] == escape(d)[5]);
            let p = c as u32 as int;
            let q = d as u32 as int;
            assert(lower_digits()[p / 16] == lower_digits()[q / 16]);
            assert(lower_digits()[p % 16] == lower_digits()[q % 16]);
            assert(p / 16 == q / 16 && p % 16 == q % 16);
            vstd::utf8::char_u32_cast(c, c as u32);
            vstd::utf8::char_u32_cast(d, d as u32);
        }
    }
    assert(c == d);
    assert(x =~= whole.skip(escape(c).len() as int));
    assert(y =~= other.skip(escape(d).len() as int));
}

proof fn lemma_escape_starts(c: char)
    ensures
        escape(c).len() > 0,
        escape(c)[0] != '"',
{
}

/// A JSON string ends where it says, and tells its text.
pub proof fn lemma_escaped_prefix(a: Seq<char>, b: Seq<char>, x: Seq<char>, y: Seq<char>)
    requires
        escaped(a) + seq!['"'] + x == escaped(b) + seq!['"'] + y,
    ensures
        a == b,
        x == y,
    decreases a.len(),
{
    let whole = escaped(a) + seq!['"'] + x;
    let other = escaped(b) + seq!['"'] + y;
    if a.len() == 0 || b.len() == 0 {
        if a.len() > 0 {
            lemma_escape_starts(a[0]);
            assert(whole[0] == escape(a[0])[0]);
            assert(other[0] == '"');
        }
        if b.len() > 0 {
            lemma_escape_starts(b[0]);
            assert(other[0] == escape(b[0])[0]);
            assert(whole[0] == '"');
        }
        assert(a =~= b);
        assert(x =~= whole.skip(1));
        assert(y =~= other.skip(1));
    } else {
        let ra = escaped(a.drop_first()) + seq!['"'] + x;
        let rb = escaped(b.drop_first()) + seq!['"'] + y;
        assert(whole =~= escape(a[0]) + ra);
        assert(other =~= escape(b[0]) + rb);
        lemma_escape_prefix(a[0], b[0], ra, rb);
        lemma_escaped_prefix(a.drop_first(), b.drop_first(), x, y);
        assert(a =~= seq![a[0]] + a.drop_first());
        assert(b =~= seq![b[0]] + b.drop_first());
    }
}

proof fn lemma_quoted_prefix(a: Seq<char>, b: Seq<char>, x: Seq<char>, y: Seq<char>)
    requires
        quoted(a) + x == quoted(b) + y,
    ensures
        a == b,
        x == y,
{
    let ra = escaped(a) + seq!['"'] + x;
    let rb = escaped(b) + seq!['"'] + y;
    assert((quoted(a) + x).skip(1) =~= ra);
    assert((quoted(b) + y).skip(1) =~= rb);
    lemma_escaped_prefix(a, b, x, y);
}

/// The kind of a value, by the character that its text starts with.
pub open spec fn starts_as(tree: Tree, c: char) -> bool {
    match tree {
        Tree::Null => c == 'n',
        Tree::Number(_) => '0' <= c <= '9',
        Tree::Text(_) => c == '"',
        Tree::List(_) => c == '[',
        Tree::Object(_) => c == '{',
    }
}

proof fn lemma_render_starts(tree: Tree)
    ensures
        render(tree).len() > 0,
        starts_as(tree, render(tree)[0]),
{
    reveal_strlit("null");
    if let Tree::Number(n) = tree {
        decimal_is_digits(n);
    }
}

/// The text of a value ends where it says, and tells the value.
pub proof fn lemma_render_prefix(a: Tree, b: Tree, x: Seq<char>, y: Seq<char>)
    requires
        render(a) + x == render(b) + y,
        ends_number(x),
        ends_number(y),
    ensures
        a == b,
        x == y,
    decreases a, 0int,
{
    let whole = render(a) + x;
    let other = render(b) + y;
    lemma_render_starts(a);
    lemma_render_starts(b);
    assert(whole[0] == render(a)[0]);
    assert(other[0] == render(b)[0]);
    match (a, b) {
        (Tree::Null, Tree::Null) => {
            assert(x =~= whole.skip("null"@.len() as int));
            assert(y =~= other.skip("null"@.len() as int));
        },
        (Tree::Number(n), Tree::Number(m)) => {
            lemma_decimal_prefix(n, m, x, y);
        },
        (Tree::Text(s), Tree::Text(t)) => {
            lemma_quoted_prefix(s, t, x, y);
        },
        (Tree::List(s), Tree::List(t)) => {
            assert(whole.skip(1) =~= render_items(s) + (seq![']'] + x));
            assert(other.skip(1) =~= render_items(t) + (seq![']'] + y));
            lemma_items_prefix(s, t, x, y);
        },
        (Tree::Object(s), Tree::Object(t)) => {
            assert(whole.skip(1) =~= render_fields(s) + (seq!['}'] + x));
            assert(other.skip(1) =~= render_fields(t) + (seq!['}'] + y));
            lemma_fields_prefix(s, t, x, y);
        },
        _ => {},
    }
}

proof fn lemma_items_prefix(a: Seq<Tree>, b: Seq<Tree>, x: Seq<char>, y: Seq<char>)
    requires
        render_items(a) + (seq![']'] + x) == render_items(b) + (seq![']'] + y),
    ensures
        a == b,
        x == y,
    decreases a, 0int,
{
    let whole = render_items(a) + (seq![']'] + x);
    let other = render_items(b) + (seq![']'] + y);
    if a.len() > 0 {
        lemma_render_starts(a[0]);
        assert(whole[0] == render(a[0])[0]);
    } else {
        assert(whole[0] == ']');
    }
    if b.len() > 0 {
        lemma_render_starts(b[0]);
        assert(other[0] == render(b[0])[0]);
    } else {
        assert(other[0] == ']');
    }
    if a.len() == 0 || b.len() == 0 {
        assert(a =~= b);
        assert(x =~= whole.skip(1));
        assert(y =~= other.skip(1));
    } else {
        let ra = render_more_items(a.drop_first()) + (seq![']'] + x);
        let rb = render_more_items(b.drop_first()) + (seq![']'] + y);
        assert(whole =~= render(a[0]) + ra);
        assert(other =~= render(b[0]) + rb);
        lemma_more_items_start(a.drop_first(), x);
        lemma_more_items_start(b.drop_first(), y);
        lemma_render_prefix(a[0], b[0], ra, rb);
        lemma_more_items_prefix(a.drop_first(), b.drop_first(), x, y);
        assert(a =~= seq![a[0]] + a.drop_first());
        assert(b =~= seq![b[0]] + b.drop_first());
    }
}

proof fn lemma_more_items_start(items: Seq<Tree>, x: Seq<char>)
    ensures
        ({
            let rest = render_more_items(items) + (seq![']'] + x);
            rest.len() > 0 && rest[0] == if items.len() == 0 {
                ']'
            } else {
                ','
            }
        }),
{
}

proof fn lemma_more_items_prefix(a: Seq<Tree>, b: Seq<Tree>, x: Seq<char>, y: Seq<char>)
    requires
        render_more_items(a) + (seq![']'] + x) == render_more_items(b) + (seq![']'] + y),
    ensures
        a == b,
        x == y,
    decreases a, 0int,
{
    let whole = render_more_items(a) + (seq![']'] + x);
    let other = render_more_items(b) + (seq![']'] + y);
    lemma_more_items_start(a, x);
    lemma_more_items_start(b, y);
    if a.len() == 0 || b.len() == 0 {
        assert(a =~= b);
        assert(x =~= whole.skip(1));
        assert(y =~= other.skip(1));
    } else {
        let ra = render_more_items(a.drop_first()) + (seq![']'] + x);
        let rb = render_more_items(b.drop_first()) + (seq![']'] + y);
        assert(whole.skip(1) =~= render(a[0]) + ra);
        assert(other.skip(1) =~= render(b[0]) + rb);
        lemma_more_items_start(a.drop_first(), x);
        lemma_more_items_start(b.drop_first(), y);
        lemma_render_prefix(a[0], b[0], ra, rb);
        lemma_more_items_prefix(a.drop_first(), b.drop_first(), x, y);
        assert(a =~= seq![a[0]] + a.drop_first());
        assert(b =~= seq![b[0]] + b.drop_first());
    }
}

proof fn lemma_more_fields_start(fields: Seq<(Seq<char>, Tree)>, x: Seq<char>)
    ensures
        ({
            let rest = render_more_fields(fields) + (seq!['}'] + x);
            rest.len() > 0 && rest[0] == if fields.len() == 0 {
                '}'
            } else {
                ','
            }
        }),
{
}

proof fn lemma_field_prefix(
    a: (Seq<char>, Tree),
    b: (Seq<char>, Tree),
    x: Seq<char>,
    y: Seq<char>,
)
    requires
        quoted(a.0) + seq![':'] + render(a.1) + x == quoted(b.0) + seq![':'] + render(b.1) + y,
        ends_number(x),
        ends_number(y),
    ensures
        a == b,
        x == y,
    decreases a.1, 1int,
{
    let ra = seq![':'] + (render(a.1) + x);
    let rb = seq![':'] + (render(b.1) + y);
    assert(quoted(a.0) + ra =~= quoted(a.0) + seq![':'] + render(a.1) + x);
    assert(quoted(b.0) + rb =~= quoted(b.0) + seq![':'] + render(b.1) + y);
    lemma_quoted_prefix(a.0, b.0, ra, rb);
    assert(ra.skip(1) =~= render(a.1) + x);
    assert(rb.skip(1) =~= render(b.1) + y);
    lemma_render_prefix(a.1, b.1, x, y);
}

proof fn lemma_fields_prefix(
    a: Seq<(Seq<char>, Tree)>,
    b: Seq<(Seq<char>, Tree)>,
    x: Seq<char>,
    y: Seq<char>,
)
    requires
        render_fields(a) + (seq!['}'] + x) == render_fields(b) + (seq!['}'] + y),
    ensures
        a == b,
        x == y,
    decreases a, 0int,
{
    let whole = render_fields(a) + (seq!['}'] + x);
    let other = render_fields(b) + (seq!['}'] + y);
    if a.len() > 0 {
        assert(whole[0] == quoted(a[0].0)[0]);
    } else {
        assert(whole[0] == '}');
    }
    if b.len() > 0 {
        assert(other[0] == quoted(b[0].0)[0]);
    } else {
        assert(other[0] == '}');
    }
    if a.len() == 0 || b.len() == 0 {
        assert(a =~= b);
        assert(x =~= whole.skip(1));
        assert(y =~= other.skip(1));
    } else {
        let ra = render_more_fields(a.drop_first()) + (seq!['}'] + x);
        let rb = render_more_fields(b.drop_first()) + (seq!['}'] + y);
        assert(whole =~= quoted(a[0].0) + seq![':'] + render(a[0].1) + ra);
        assert(other =~= quoted(b[0].0) + seq![':'] + render(b[0].1) + rb);
        lemma_more_fields_start(a.drop_first(), x);
        lemma_more_fields_start(b.drop_first(), y);
        lemma_field_prefix(a[0], b[0], ra, rb);
        lemma_more_fields_prefix(a.drop_first(), b.drop_first(), x, y);
        assert(a =~= seq![a[0]] + a.drop_first());
        assert(b =~= seq![b[0]] + b.drop_first());
    }
}

proof fn lemma_more_fields_prefix(
    a: Seq<(Seq<char>, Tree)>,
    b: Seq<(Seq<char>, Tree)>,
    x: Seq<char>,
    y: Seq<char>,
)
    requires
        render_more_fields(a) + (seq!['}'] + x) == render_more_fields(b) + (seq!['}'] + y),
    ensures
        a == b,
        x == y,
    decreases a, 0int,
{
    let whole = render_more_fields(a) + (seq!['}'] + x);
    let other = render_more_fields(b) + (seq!['}'] + y);
    lemma_more_fields_start(a, x);
    lemma_more_fields_start(b, y);
    if a.len() == 0 || b.len() == 0 {
        assert(a =~= b);
        assert(x =~= whole.skip(1));
        assert(y =~= other.skip(1));
    } else {
        let ra = render_more_fields(a.drop_first()) + (seq!['}'] + x);
        let rb = render_more_fields(b.drop_first()) + (seq!['}'] + y);
        assert(whole.skip(1) =~= quoted(a[0].0) + seq![':'] + render(a[0].1) + ra);
        assert(other.skip(1) =~= quoted(b[0].0) + seq![':'] + render(b[0].1) + rb);
        lemma_more_fields_start(a.drop_first(), x);
        lemma_more_fields_start(b.drop_first(), y);
        lemma_field_prefix(a[0], b[0], ra, rb);
        lemma_more_fields_prefix(a.drop_first(), b.drop_first(), x, y);
        assert(a =~= seq![a[0]] + a.drop_first());
        assert(b =~= seq![b[0]] + b.drop_first());
    }
}

/// Different values have different texts.
pub proof fn rendering_is_injective(a: Tree, b: Tree)
    requires
        render(a) == render(b),
    ensures
        a == b,
{
    assert(render(a) + seq![] =~= render(a));
    assert(render(b) + seq![] =~= render(b));
    lemma_render_prefix(a, b, seq![], seq![]);
}

/// The error type of `serde_json`, carried through unread.
#[verifier::external_type_specification]
#[verifier::external_body]
pub struct ExSerdeJsonError(serde_json::Error);

/// `serde_json::to_string` of a string: always succeeds, and gives the text
/// between quotation marks with `"`, `\` and the characters below U+0020
/// escaped, the short escapes where JSON has one.
#[verifier::external_body]
fn to_json_string(text: &str) -> (result: Result<String, serde_json::Error>)
    ensures
        result is Ok,
        result->Ok_0@ == quoted(text@),
{
    serde_json::to_string(text)
}

/// A text as a JSON string.
pub fn json_text(text: &str) -> (result: String)
    ensures
        result@ == render(Tree::Text(text@)),
{
    match to_json_string(text) {
        Ok(quoted_text) => quoted_text,
        Err(_) => String::new(),
    }
}

/// A number in JSON.
pub fn json_number(n: u64) -> (result: String)
    ensures
        result@ == render(Tree::Number(n as nat)),
{
    decimal_text(n)
}

proof fn lemma_more_items_push(items: Seq<Tree>, item: Tree)
    ensures
        render_more_items(items.push(item)) == render_more_items(items) + seq![','] + render(item),
    decreases items.len(),
{
    let longer = items.push(item);
    if items.len() == 0 {
        reveal_with_fuel(render_more_items, 2);
        assert(longer.drop_first() =~= seq![]);
        assert(render_more_items(longer) =~= seq![','] + render(item));
        assert(render_more_items(items) + seq![','] + render(item) =~= seq![','] + render(item));
    } else {
        lemma_more_items_push(items.drop_first(), item);
        assert(longer.drop_first() =~= items.drop_first().push(item));
        assert(render_more_items(longer) =~= render_more_items(items) + seq![','] + render(item));
    }
}

proof fn lemma_items_push(items: Seq<Tree>, item: Tree)
    ensures
        render_items(items.push(item)) == if items.len() == 0 {
            render(item)
        } else {
            render_items(items) + seq![','] + render(item)
        },
        items.len() == 0 <==> render_items(items).len() == 0,
{
    let longer = items.push(item);
    if items.len() == 0 {
        assert(longer.drop_first() =~= seq![]);
        assert(render_items(longer) =~= render(item));
    } else {
        lemma_render_starts(items[0]);
        lemma_more_items_push(items.drop_first(), item);
        assert(longer.drop_first() =~= items.drop_first().push(item));
        assert(render_items(longer) =~= render_items(items) + seq![','] + render(item));
    }
}

/// The items of a list with one more behind them.
pub fn with_item(
    items_text: String,
    item_text: &str,
    Ghost(items): Ghost<Seq<Tree>>,
    Ghost(item): Ghost<Tree>,
) -> (result: String)
    requires
        items_text@ == render_items(items),
        item_text@ == render(item),
    ensures
        result@ == render_items(items.push(item)),
{
    proof {
        lemma_items_push(items, item);
        reveal_strlit(",");
    }
    if items_text.as_str().is_empty() {
        item_text.to_owned()
    } else {
        let result = join3(&items_text, ",", item_text);
        assert(result@ =~= render_items(items) + seq![','] + render(item));
        result
    }
}

/// A list from the text of its items.
pub fn json_list(items_text: &str, Ghost(items): Ghost<Seq<Tree>>) -> (result: String)
    requires
        items_text@ == render_items(items),
    ensures
        result@ == render(Tree::List(items)),
{
    proof {
        reveal_strlit("[");
        reveal_strlit("]");
    }
    let result = join3("[", items_text, "]");
    assert(result@ =~= render(Tree::List(items)));
    result
}

proof fn lemma_more_fields_push(fields: Seq<(Seq<char>, Tree)>, field: (Seq<char>, Tree))
    ensures
        render_more_fields(fields.push(field)) == render_more_fields(fields) + seq![','] + quoted(
            field.0,
        ) + seq![':'] + render(field.1),
    decreases fields.len(),
{
    let longer = fields.push(field);
    let tail = seq![','] + quoted(field.0) + seq![':'] + render(field.1);
    if fields.len() == 0 {
        reveal_with_fuel(render_more_fields, 2);
        assert(longer.drop_first() =~= seq![]);
        assert(render_more_fields(longer) =~= tail);
        assert(render_more_fields(fields) + seq![','] + quoted(field.0) + seq![':'] + render(
            field.1,
        ) =~= tail);
    } else {
        lemma_more_fields_push(fields.drop_first(), field);
        assert(longer.drop_first() =~= fields.drop_first().push(field));
        assert(render_more_fields(longer) =~= render_more_fields(fields) + seq![','] + quoted(
            field.0,
        ) + seq![':'] + render(field.1));
    }
}

proof fn lemma_fields_push(fields: Seq<(Seq<char>, Tree)>, field: (Seq<char>, Tree))
    ensures
        render_fields(fields.push(field)) == if fields.len() == 0 {
            quoted(field.0) + seq![':'] + render(field.1)
        } else {
            render_fields(fields) + seq![','] + quoted(field.0) + seq![':'] + render(field.1)
        },
        fields.len() == 0 <==> render_fields(fields).len() == 0,
{
    let longer = fields.push(field);
    if fields.len() == 0 {
        assert(longer.drop_first() =~= seq![]);
        assert(render_fields(longer) =~= quoted(field.0) + seq![':'] + render(field.1));
    } else {
        lemma_more_fields_push(fields.drop_first(), field);
        assert(longer.drop_first() =~= fields.drop_first().push(field));
        assert(render_fields(longer) =~= render_fields(fields) + seq![','] + quoted(field.0)
            + seq![':'] + render(field.1));
    }
}

/// The fields of an object with one more behind them.
pub fn with_field(
    fields_text: String,
    key: &str,
    value_text: &str,
    Ghost(fields): Ghost<Seq<(Seq<char>, Tree)>>,
    Ghost(value): Ghost<Tree>,
) -> (result: String)
    requires
        fields_text@ == render_fields(fields),
        value_text@ == render(value),
    ensures
        result@ == render_fields(fields.push((key@, value))),
{
    proof {
        lemma_fields_push(fields, (key@, value));
        reveal_strlit(",");
        reveal_strlit(":");
    }
    let name = json_text(key);
    let field = join3(&name, ":", value_text);
    if fields_text.as_str().is_empty() {
        assert(field@ =~= quoted(key@) + seq![':'] + render(value));
        field
    } else {
        let result = join3(&fields_text, ",", &field);
        assert(result@ =~= render_fields(fields) + seq![','] + quoted(key@) + seq![':'] + render(
            value,
        ));
        result
    }
}

/// An object from the text of its fields.
pub fn json_object(fields_text: &str, Ghost(fields): Ghost<Seq<(Seq<char>, Tree)>>) -> (result:
    String)
    requires
        fields_text@ == render_fields(fields),
    ensures
        result@ == render(Tree::Object(fields)),
{
    proof {
        reveal_strlit("{");
        reveal_strlit("}");
    }
    let result = join3("{", fields_text, "}");
    assert(result@ =~= render(Tree::Object(fields)));
    result
}

} // verus!
