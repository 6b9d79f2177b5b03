use vstd::prelude::*;

verus! {

/// A character that may stand between a marker's delimiters and its name.
pub open spec fn is_blank(c: char) -> bool {
    c == ' ' || c == '\t' || c == '\n' || c == '\r'
}

/// A character with which a name may start: an ASCII letter or '_'.
pub open spec fn starts_name(c: char) -> bool {
    ('a' as u32 <= c as u32 <= 'z' as u32) || ('A' as u32 <= c as u32 <= 'Z' as u32) || c == '_'
}

/// A character with which a name may go on: an ASCII letter or digit, or '_'.
pub open spec fn continues_name(c: char) -> bool {
    starts_name(c) || ('0' as u32 <= c as u32 <= '9' as u32)
}

/// How many blanks stand in a row from position `i` on.
pub open spec fn blanks(template: Seq<char>, i: int) -> nat
    decreases template.len() - i,
{
    if 0 <= i < template.len() && is_blank(template[i]) {
        1 + blanks(template, i + 1)
    } else {
        0
    }
}

/// How many name characters stand in a row from position `i` on.
pub open spec fn name_characters(template: Seq<char>, i: int) -> nat
    decreases template.len() - i,
{
    if 0 <= i < template.len() && continues_name(template[i]) {
        1 + name_characters(template, i + 1)
    } else {
        0
    }
}

/// The length of the name that starts at position `i`, 0 where none does.
pub open spec fn name_length(template: Seq<char>, i: int) -> nat {
    if 0 <= i < template.len() && starts_name(template[i]) {
        1 + name_characters(template, i + 1)
    } else {
        0
    }
}

/// A delimiter of the template language opens at position `i`: "{{" opens a
/// marker, "{%" and "{#" open what the language does not have.
pub open spec fn opens(template: Seq<char>, i: int) -> bool {
    &&& 0 <= i
    &&& i + 1 < template.len()
    &&& template[i] == '{'
    &&& (template[i + 1] == '{' || template[i + 1] == '%' || template[i + 1] == '#')
}

/// "}}" stands at position `i`.
pub open spec fn closes(template: Seq<char>, i: int) -> bool {
    0 <= i && i + 1 < template.len() && template[i] == '}' && template[i + 1] == '}'
}

/// The names of the markers from position `i` on, first to last, or nothing
/// where the rest of the template is malformed. A marker is "{{", blanks, one
/// name, blanks, "}}"; all else is text, in which no delimiter opens.
pub open spec fn names_from(template: Seq<char>, i: int) -> Option<Seq<Seq<char>>>
    decreases template.len() - i,
{
    if i < 0 || i >= template.len() {
        Some(Seq::empty())
    } else if !opens(template, i) {
        names_from(template, i + 1)
    } else if template[i + 1] != '{' {
        None
    } else {
        let start = i + 2 + blanks(template, i + 2);
        let end = start + name_length(template, start);
        let close = end + blanks(template, end);
        if end > start && closes(template, close) {
            match names_from(template, close + 2) {
                Some(rest) => Some(seq![template.subrange(start, end)] + rest),
                None => None,
            }
        } else {
            None
        }
    }
}

/// The names that the markers of a template refer to, first to last and one
/// for each marker, or nothing where the template is malformed.
pub open spec fn referenced_names(template: Seq<char>) -> Option<Seq<Seq<char>>> {
    names_from(template, 0)
}

/// The done names before what the rest gives.
pub open spec fn preceded(done: Seq<Seq<char>>, rest: Option<Seq<Seq<char>>>) -> Option<
    Seq<Seq<char>>,
> {
    match rest {
        Some(names) => Some(done + names),
        None => None,
    }
}

fn blank(c: char) -> (b: bool)
    ensures
        b == is_blank(c),
{
    c == ' ' || c == '\t' || c == '\n' || c == '\r'
}

fn name_start(c: char) -> (b: bool)
    ensures
        b == starts_name(c),
{
    let n: u32 = c as u32;
    ('a' as u32 <= n && n <= 'z' as u32) || ('A' as u32 <= n && n <= 'Z' as u32) || c == '_'
}

fn name_part(c: char) -> (b: bool)
    ensures
        b == continues_name(c),
{
    let n: u32 = c as u32;
    name_start(c) || ('0' as u32 <= n && n <= '9' as u32)
}

/// The characters of a text.
fn characters(text: &str) -> (chars: Vec<char>)
    ensures
        chars@ == text@,
{
    let length: usize = text.unicode_len();
    let mut chars: Vec<char> = Vec::new();
    let mut i: usize = 0;
    while i < length
        invariant
            i <= length,
            length == text@.len(),
            chars@ == text@.take(i as int),
        decreases length - i,
    {
        chars.push(text.get_char(i));
        assert(chars@ =~= text@.take(i + 1));
        i += 1;
    }
    assert(text@.take(length as int) =~= text@);
    chars
}

/// The position after the blanks that start at `from`.
fn skip_blanks(chars: &Vec<char>, from: usize) -> (to: usize)
    requires
        from <= chars.len(),
    ensures
        to == from + blanks(chars@, from as int),
        to <= chars.len(),
{
    let mut to: usize = from;
    while to < chars.len() && blank(chars[to])
        invariant
            from <= to <= chars.len(),
            from + blanks(chars@, from as int) == to + blanks(chars@, to as int),
        decreases chars.len() - to,
    {
        to += 1;
    }
    to
}

/// The position after the name that starts at `from`, `from` where none does.
fn skip_name(chars: &Vec<char>, from: usize) -> (to: usize)
    requires
        from <= chars.len(),
    ensures
        to == from + name_length(chars@, from as int),
        to <= chars.len(),
{
    if from >= chars.len() || !name_start(chars[from]) {
        return from;
    }
    let mut to: usize = from + 1;
    while to < chars.len() && name_part(chars[to])
        invariant
            from < to <= chars.len(),
            from + name_length(chars@, from as int) == to + name_characters(chars@, to as int),
        decreases chars.len() - to,
    {
        to += 1;
    }
    to
}

/// The names that the markers of the template refer to, first to last, or
/// nothing where the template is malformed: where "{%" or "{#" stands in
/// it, or "{{" without blanks, one name, blanks and "}}" behind it.
pub fn marker_names(template: &str) -> (names: Option<Vec<String>>)
    ensures
        names.deep_view() == referenced_names(template@),
{
    let chars = characters(template);
    let ghost text = template@;
    let mut names: Vec<String> = Vec::new();
    let mut i: usize = 0;
    assert(names.deep_view() =~= Seq::empty());
    while i < chars.len()
        invariant
            i <= chars.len(),
            chars@ == text,
            text == template@,
            referenced_names(text) == preceded(names.deep_view(), names_from(text, i as int)),
        decreases chars.len() - i,
    {
        let opening: bool = chars[i] == '{' && i + 1 < chars.len() && (chars[i + 1] == '{'
            || chars[i + 1] == '%' || chars[i + 1] == '#');
        if !opening {
            i += 1;
        } else if chars[i + 1] != '{' {
            return None;
        } else {
            let start: usize = skip_blanks(&chars, i + 2);
            let end: usize = skip_name(&chars, start);
            let close: usize = skip_blanks(&chars, end);
            if end > start && close < chars.len() && close + 1 < chars.len() && chars[close] == '}'
                && chars[close + 1] == '}' {
                let name = template.substring_char(start, end).to_owned();
                let ghost before = names.deep_view();
                names.push(name);
                proof {
                    assert(names.deep_view() =~= before.push(
                        text.subrange(start as int, end as int),
                    ));
                    let rest = names_from(text, close + 2);
                    if rest is Some {
                        assert(before + (seq![text.subrange(start as int, end as int)]
                            + rest->Some_0) =~= names.deep_view() + rest->Some_0);
                    }
                }
                i = close + 2;
            } else {
                return None;
            }
        }
    }
    assert(names.deep_view() + Seq::<Seq<char>>::empty() =~= names.deep_view());
    Some(names)
}

} // verus!
