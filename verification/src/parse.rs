//! The template grammar, as recursive spec functions over `Seq<char>`,
//! and the executable recursive-descent parser proved equal to them.
//!
//! Scanning is left to right and non-backtracking except at the
//! alternative-selection points of the grammar: at each content position
//! the parser tries, in order, the parent marker, a variable, a control
//! tag, and literal text running up to the next `{{` or `{%` delimiter.
use vstd::prelude::*;

use crate::ast::{
    blocks_v, content_v, contents_v, block_v, lemma_blocks_v, lemma_contents_v, tag_v, template_v,
    Block, BlockTag, BlockTagV, BlockV, Content, ContentV, Extends, ExtendsV, Module, ModuleV,
    ParseError, Template, TemplateV,
};
use crate::table::{
    assoc_position, assoc_set, lemma_assoc_set_found, lemma_assoc_set_missing,
};
use crate::text::{
    find_pair, find_pair_at, find_text_run_end, lemma_find_pair_at, lemma_text_run_end_bounds,
    skip_ws, skip_ws_from, starts_at, starts_with_at, starts_with_str, tag_opens, text_run_end,
    till_quote, till_quote_from, till_space, till_space_from, trim_substring, trimmed,
};

verus! {

/// The keyword of the embed tag, spelled out character by character.
pub open spec fn embed_kw() -> Seq<char> {
    seq!['i', 'n', 'c', 'l', 'u', 'd', 'e']
}

/// Executable copy of [`embed_kw`].
pub fn embed_kw_chars() -> (v: Vec<char>)
    ensures
        v@ == embed_kw(),
{
    let v = vec!['i', 'n', 'c', 'l', 'u', 'd', 'e'];
    assert(v@ =~= embed_kw());
    v
}

/// The close tag that ends a named block's body.
pub open spec fn endblock_lit() -> Seq<char> {
    "{% endblock %}"@
}

/// The close tag that ends a loop's body.
pub open spec fn endfor_lit() -> Seq<char> {
    "{% endfor %}"@
}

/// Where a `{{ parent() }}` marker starting at `i` ends, if one starts there.
pub open spec fn parent_marker_end(s: Seq<char>, i: int) -> Option<int> {
    let a = skip_ws(s, i + 2, s.len() as int);
    if a > i + 2 && starts_at(s, a, "parent()"@) {
        let c = skip_ws(s, a + 8, s.len() as int);
        if c > a + 8 && starts_at(s, c, "}}"@) {
            Option::Some(c + 2)
        } else {
            Option::None
        }
    } else {
        Option::None
    }
}

/// A named-block open tag: `{% block <name> %}`, the name running to the
/// first space, at least one whitespace character on each side of it.
pub open spec fn named_tag_at(s: Seq<char>, i: int, end: int) -> bool {
    let a = skip_ws(s, i, end);
    &&& a > i
    &&& a + 5 <= end
    &&& starts_at(s, a, "block"@)
    &&& {
        let c = skip_ws(s, a + 5, end);
        &&& c > a + 5
        &&& till_space(s, c, end) < end
    }
}

/// The name carried by a named-block open tag.
pub open spec fn named_tag_name(s: Seq<char>, i: int, end: int) -> Seq<char> {
    let a = skip_ws(s, i, end);
    let c = skip_ws(s, a + 5, end);
    s.subrange(c, till_space(s, c, end))
}

/// A loop open tag: `{% for <item> in <collection> %}`.
pub open spec fn loop_tag_at(s: Seq<char>, i: int, end: int) -> bool {
    let a = skip_ws(s, i, end);
    &&& a > i
    &&& a + 3 <= end
    &&& starts_at(s, a, "for"@)
    &&& {
        let c = skip_ws(s, a + 3, end);
        &&& c > a + 3
        &&& {
            let ve = till_space(s, c, end);
            let d = skip_ws(s, ve, end);
            &&& d > ve
            &&& d + 2 <= end
            &&& starts_at(s, d, "in"@)
            &&& skip_ws(s, d + 2, end) > d + 2
        }
    }
}

/// The item name bound by a loop tag, trimmed.
pub open spec fn loop_tag_var(s: Seq<char>, i: int, end: int) -> Seq<char> {
    let a = skip_ws(s, i, end);
    let c = skip_ws(s, a + 3, end);
    trimmed(s, c, till_space(s, c, end))
}

/// The collection path of a loop tag, trimmed.
pub open spec fn loop_tag_collection(s: Seq<char>, i: int, end: int) -> Seq<char> {
    let a = skip_ws(s, i, end);
    let c = skip_ws(s, a + 3, end);
    let ve = till_space(s, c, end);
    let d = skip_ws(s, ve, end);
    trimmed(s, d + 2, end)
}

/// A quoted path after keyword `kw`: `<kw> "<path>"` or with single
/// quotes, at least one whitespace character after the closing quote.
pub open spec fn quoted_tag_at(s: Seq<char>, i: int, end: int, kw: Seq<char>) -> bool {
    let a = skip_ws(s, i, end);
    &&& a > i
    &&& a + kw.len() <= end
    &&& starts_at(s, a, kw)
    &&& {
        let c = skip_ws(s, a + kw.len(), end);
        &&& c > a + kw.len()
        &&& c < end
        &&& (s[c] == '\'' || s[c] == '"')
        &&& {
            let pe = till_quote(s, c + 1, end);
            &&& pe < end
            &&& skip_ws(s, pe + 1, end) > pe + 1
        }
    }
}

/// The path between the quotes of a quoted tag.
pub open spec fn quoted_tag_path(s: Seq<char>, i: int, end: int, kw: Seq<char>) -> Seq<char> {
    let a = skip_ws(s, i, end);
    let c = skip_ws(s, a + kw.len(), end);
    s.subrange(c + 1, till_quote(s, c + 1, end))
}

/// The position after the whitespace that follows a quoted tag's closing quote.
pub open spec fn quoted_tag_ws_end(s: Seq<char>, i: int, end: int, kw: Seq<char>) -> int {
    let a = skip_ws(s, i, end);
    let c = skip_ws(s, a + kw.len(), end);
    let pe = till_quote(s, c + 1, end);
    skip_ws(s, pe + 1, end)
}

/// Dispatch on the keyword inside a `{% ... %}` tag whose interior is
/// `[i, end)`: `block`, `for`, the embed keyword, anything else
/// unrecognized.
pub open spec fn classify_tag(s: Seq<char>, i: int, end: int) -> BlockTagV {
    if named_tag_at(s, i, end) {
        BlockTagV::Named(named_tag_name(s, i, end))
    } else if loop_tag_at(s, i, end) {
        BlockTagV::Loop(loop_tag_var(s, i, end), loop_tag_collection(s, i, end))
    } else if quoted_tag_at(s, i, end, embed_kw()) {
        BlockTagV::Embed(quoted_tag_path(s, i, end, embed_kw()))
    } else {
        BlockTagV::Unrecognized
    }
}

/// An `extends` declaration at the very start of the file:
/// `{% extends "<path>" %}` with nothing else inside the tag.
/// Returns the parent path and the position after the tag.
pub open spec fn extends_parse(s: Seq<char>) -> Option<(Seq<char>, int)> {
    if !starts_at(s, 0, "{%"@) {
        Option::None
    } else {
        match find_pair_at(s, 2, '%', '}') {
            Option::None => Option::None,
            Option::Some(end) => {
                if quoted_tag_at(s, 2, end, "extends"@) && quoted_tag_ws_end(s, 2, end, "extends"@)
                    == end {
                    Option::Some((quoted_tag_path(s, 2, end, "extends"@), end + 2))
                } else {
                    Option::None
                }
            },
        }
    }
}

/// One content node starting at position `i`: parent marker, variable,
/// control block, or a literal text run.
pub open spec fn sp_content(s: Seq<char>, i: int) -> Result<(ContentV, int), ParseError>
    decreases s.len() - i, 1int,
{
    if i < 0 || i >= s.len() {
        Result::Err(ParseError::UnexpectedEndOfInput)
    } else if starts_at(s, i, "{{"@) {
        match parent_marker_end(s, i) {
            Option::Some(j) => Result::Ok((ContentV::ParentMarker(Option::None), j)),
            Option::None => match find_pair_at(s, i + 2, '}', '}') {
                Option::None => if i + 2 >= s.len() {
                    Result::Err(ParseError::UnexpectedEndOfInput)
                } else {
                    Result::Err(ParseError::UnterminatedVariable)
                },
                Option::Some(k) => Result::Ok((ContentV::Var(trimmed(s, i + 2, k)), k + 2)),
            },
        }
    } else if starts_at(s, i, "{%"@) {
        sp_block(s, i)
    } else {
        Result::Ok((ContentV::Text(s.subrange(i, text_run_end(s, i))), text_run_end(s, i)))
    }
}

/// A control block starting at the `{%` at position `i`: classify the
/// tag, then, for named blocks and loops, parse the body up to the
/// required close tag.
pub open spec fn sp_block(s: Seq<char>, i: int) -> Result<(ContentV, int), ParseError>
    decreases s.len() - i, 0int,
{
    match find_pair_at(s, i + 2, '%', '}') {
        Option::None => if i + 2 >= s.len() {
            Result::Err(ParseError::UnexpectedEndOfInput)
        } else {
            Result::Err(ParseError::UnterminatedTag)
        },
        Option::Some(end) => {
            let tag = classify_tag(s, i + 2, end);
            if i <= end && end + 2 <= s.len() {
                match tag {
                    BlockTagV::Named(_) => match sp_nodes(s, end + 2, Option::Some(endblock_lit())) {
                        Result::Ok((cs, j)) => Result::Ok(
                            (
                                ContentV::Block(
                                    Box::new(
                                        BlockV { tag, children: cs, parent: Option::None },
                                    ),
                                ),
                                j,
                            ),
                        ),
                        Result::Err(e) => Result::Err(e),
                    },
                    BlockTagV::Loop(_, _) => match sp_nodes(s, end + 2, Option::Some(endfor_lit())) {
                        Result::Ok((cs, j)) => Result::Ok(
                            (
                                ContentV::Block(
                                    Box::new(
                                        BlockV { tag, children: cs, parent: Option::None },
                                    ),
                                ),
                                j,
                            ),
                        ),
                        Result::Err(e) => Result::Err(e),
                    },
                    _ => Result::Ok(
                        (
                            ContentV::Block(
                                Box::new(
                                    BlockV { tag, children: Seq::empty(), parent: Option::None },
                                ),
                            ),
                            end + 2,
                        ),
                    ),
                }
            } else {
                Result::Err(ParseError::UnterminatedTag)
            }
        },
    }
}

/// A run of content nodes from position `i` up to the close tag
/// `closer`, or, when `closer` is `None`, up to the end of the input.
/// Returns the nodes and the position after the close tag.
pub open spec fn sp_nodes(s: Seq<char>, i: int, closer: Option<Seq<char>>) -> Result<
    (Seq<ContentV>, int),
    ParseError,
>
    decreases s.len() - i, 2int,
{
    if closer is Some && starts_at(s, i, closer->0) {
        Result::Ok((Seq::empty(), i + closer->0.len()))
    } else if i >= s.len() {
        match closer {
            Option::None => Result::Ok((Seq::empty(), i)),
            Option::Some(_) => Result::Err(ParseError::UnterminatedBlock),
        }
    } else {
        match sp_content(s, i) {
            Result::Err(e) => Result::Err(e),
            Result::Ok((c, j)) => if i < j <= s.len() {
                match sp_nodes(s, j, closer) {
                    Result::Ok((cs, k)) => Result::Ok((seq![c] + cs, k)),
                    Result::Err(e) => Result::Err(e),
                }
            } else {
                Result::Err(ParseError::UnterminatedBlock)
            },
        }
    }
}

/// Gather the named top-level blocks of an extends file into its
/// override table, later declarations replacing earlier ones.
pub open spec fn collect_blocks_from(
    acc: Seq<(Seq<char>, BlockV)>,
    cs: Seq<ContentV>,
) -> Seq<(Seq<char>, BlockV)>
    decreases cs,
{
    if cs.len() == 0 {
        acc
    } else {
        let step = match cs[0] {
            ContentV::Block(b) => match b.tag {
                BlockTagV::Named(name) => assoc_set(acc, name, *b),
                _ => acc,
            },
            _ => acc,
        };
        collect_blocks_from(step, cs.drop_first())
    }
}

/// The whole-file grammar: an `extends` file keeps only its named
/// top-level blocks; any other file is a module keeping all content.
pub open spec fn sp_template(s: Seq<char>) -> Result<TemplateV, ParseError> {
    match extends_parse(s) {
        Option::Some((path, j)) => match sp_nodes(s, j, Option::None) {
            Result::Ok((cs, _)) => Result::Ok(
                TemplateV::Extends(
                    ExtendsV { parent_path: path, blocks: collect_blocks_from(Seq::empty(), cs) },
                ),
            ),
            Result::Err(e) => Result::Err(e),
        },
        Option::None => match sp_nodes(s, 0, Option::None) {
            Result::Ok((cs, _)) => Result::Ok(TemplateV::Module(ModuleV { children: cs })),
            Result::Err(e) => Result::Err(e),
        },
    }
}

/// Prefix a run of already-parsed nodes onto a parse continuation.
pub open spec fn prepend_nodes(
    a: Seq<ContentV>,
    r: Result<(Seq<ContentV>, int), ParseError>,
) -> Result<(Seq<ContentV>, int), ParseError> {
    match r {
        Result::Ok((cs, k)) => Result::Ok((a + cs, k)),
        Result::Err(e) => Result::Err(e),
    }
}

/// Executable check for a quoted tag; returns the path between the
/// quotes and the position after the whitespace that follows it.
fn quoted_tag_exec(t: &str, i: usize, end: usize, kw: &Vec<char>) -> (r: Option<(String, usize)>)
    requires
        i <= end <= t@.len(),
    ensures
        match r {
            Option::Some((p, d)) => quoted_tag_at(t@, i as int, end as int, kw@) && p@
                == quoted_tag_path(t@, i as int, end as int, kw@) && d as int == quoted_tag_ws_end(
                t@,
                i as int,
                end as int,
                kw@,
            ) && d <= end,
            Option::None => !quoted_tag_at(t@, i as int, end as int, kw@),
        },
{
    let a = skip_ws_from(t, i, end);
    if !(a > i) {
        return Option::None;
    }
    if end - a < kw.len() {
        return Option::None;
    }
    if !starts_with_at(t, a, kw) {
        return Option::None;
    }
    let b = a + kw.len();
    let c = skip_ws_from(t, b, end);
    if !(c > b) {
        return Option::None;
    }
    if !(c < end) {
        return Option::None;
    }
    let q = t.get_char(c);
    if !(q == '\'' || q == '"') {
        return Option::None;
    }
    let pe = till_quote_from(t, c + 1, end);
    if !(pe < end) {
        return Option::None;
    }
    let d = skip_ws_from(t, pe + 1, end);
    if !(d > pe + 1) {
        return Option::None;
    }
    let path = t.substring_char(c + 1, pe).to_owned();
    Option::Some((path, d))
}

/// Executable tag dispatch, equal to [`classify_tag`].
fn classify_tag_exec(t: &str, i: usize, end: usize) -> (tag: BlockTag)
    requires
        i <= end <= t@.len(),
    ensures
        tag_v(tag) == classify_tag(t@, i as int, end as int),
{
    proof {
        reveal_strlit("block");
        reveal_strlit("for");
        reveal_strlit("in");
    }
    let a = skip_ws_from(t, i, end);
    // Named block tag.
    if a > i && end - a >= 5 && starts_with_str(t, a, "block") {
        let c = skip_ws_from(t, a + 5, end);
        if c > a + 5 {
            let ne = till_space_from(t, c, end);
            if ne < end {
                let name = t.substring_char(c, ne).to_owned();
                return BlockTag::Named(name);
            }
        }
    }
    assert(!named_tag_at(t@, i as int, end as int));
    // Loop tag.
    if a > i && end - a >= 3 && starts_with_str(t, a, "for") {
        let c = skip_ws_from(t, a + 3, end);
        if c > a + 3 {
            let ve = till_space_from(t, c, end);
            let d = skip_ws_from(t, ve, end);
            if d > ve && end - d >= 2 && starts_with_str(t, d, "in") {
                let f = skip_ws_from(t, d + 2, end);
                if f > d + 2 {
                    let varname = trim_substring(t, c, ve);
                    let coll = trim_substring(t, d + 2, end);
                    return BlockTag::Loop(varname, coll);
                }
            }
        }
    }
    assert(!loop_tag_at(t@, i as int, end as int));
    // Embed tag.
    let kw = embed_kw_chars();
    match quoted_tag_exec(t, i, end, &kw) {
        Option::Some((path, _)) => BlockTag::Embed(path),
        Option::None => BlockTag::Unrecognized,
    }
}

/// Executable scan for a `{{ parent() }}` marker at position `i`.
fn parse_parent_at(t: &str, i: usize) -> (r: Option<usize>)
    requires
        i + 2 <= t@.len(),
    ensures
        match r {
            Option::Some(j) => parent_marker_end(t@, i as int) == Option::Some(j as int) && i < j
                <= t@.len(),
            Option::None => parent_marker_end(t@, i as int) is None,
        },
{
    proof {
        reveal_strlit("parent()");
        reveal_strlit("}}");
    }
    let n = t.unicode_len();
    let a = skip_ws_from(t, i + 2, n);
    if a > i + 2 && starts_with_str(t, a, "parent()") {
        let c = skip_ws_from(t, a + 8, n);
        if c > a + 8 && starts_with_str(t, c, "}}") {
            return Option::Some(c + 2);
        }
        return Option::None;
    }
    Option::None
}

/// Parse one content node at position `i`, equal to [`sp_content`].
pub fn parse_content(t: &str, i: usize) -> (r: Result<(Content, usize), ParseError>)
    requires
        i < t@.len(),
    ensures
        match r {
            Result::Ok((c, j)) => sp_content(t@, i as int) == Result::Ok::<
                (ContentV, int),
                ParseError,
            >((content_v(c), j as int)) && i < j <= t@.len(),
            Result::Err(e) => sp_content(t@, i as int) == Result::Err::<
                (ContentV, int),
                ParseError,
            >(e),
        },
    decreases t@.len() - i, 1int,
{
    proof {
        reveal_strlit("{{");
        reveal_strlit("{%");
    }
    let n = t.unicode_len();
    if starts_with_str(t, i, "{{") {
        match parse_parent_at(t, i) {
            Option::Some(j) => Result::Ok((Content::ParentMarker(Option::None), j)),
            Option::None => match find_pair(t, i + 2, '}', '}') {
                Option::None => if i + 2 >= n {
                    Result::Err(ParseError::UnexpectedEndOfInput)
                } else {
                    Result::Err(ParseError::UnterminatedVariable)
                },
                Option::Some(k) => {
                    proof {
                        lemma_find_pair_at(t@, i as int + 2, '}', '}');
                    }
                    let v = trim_substring(t, i + 2, k);
                    Result::Ok((Content::Var(v), k + 2))
                },
            },
        }
    } else if starts_with_str(t, i, "{%") {
        parse_block(t, i)
    } else {
        proof {
            lemma_text_run_end_bounds(t@, i as int + 1);
        }
        assert(!tag_opens(t@, i as int));
        let j = find_text_run_end(t, i);
        let txt = t.substring_char(i, j).to_owned();
        Result::Ok((Content::Text(txt), j))
    }
}

/// Parse a control block opening at position `i`, equal to [`sp_block`].
pub fn parse_block(t: &str, i: usize) -> (r: Result<(Content, usize), ParseError>)
    requires
        i < t@.len(),
        starts_at(t@, i as int, "{%"@),
    ensures
        match r {
            Result::Ok((c, j)) => sp_block(t@, i as int) == Result::Ok::<
                (ContentV, int),
                ParseError,
            >((content_v(c), j as int)) && i < j <= t@.len(),
            Result::Err(e) => sp_block(t@, i as int) == Result::Err::<(ContentV, int), ParseError>(
                e,
            ),
        },
    decreases t@.len() - i, 0int,
{
    proof {
        reveal_strlit("{%");
    }
    let n = t.unicode_len();
    match find_pair(t, i + 2, '%', '}') {
        Option::None => if i + 2 >= n {
            Result::Err(ParseError::UnexpectedEndOfInput)
        } else {
            Result::Err(ParseError::UnterminatedTag)
        },
        Option::Some(end) => {
            proof {
                lemma_find_pair_at(t@, i as int + 2, '%', '}');
            }
            let tag = classify_tag_exec(t, i + 2, end);
            if matches!(&tag, BlockTag::Named(_)) {
                match parse_nodes(t, end + 2, Option::Some("{% endblock %}")) {
                    Result::Ok((cs, j)) => Result::Ok(
                        (
                            Content::Block(
                                Box::new(Block { tag, children: cs, parent: Option::None }),
                            ),
                            j,
                        ),
                    ),
                    Result::Err(e) => Result::Err(e),
                }
            } else if matches!(&tag, BlockTag::Loop(_, _)) {
                match parse_nodes(t, end + 2, Option::Some("{% endfor %}")) {
                    Result::Ok((cs, j)) => Result::Ok(
                        (
                            Content::Block(
                                Box::new(Block { tag, children: cs, parent: Option::None }),
                            ),
                            j,
                        ),
                    ),
                    Result::Err(e) => Result::Err(e),
                }
            } else {
                let children: Vec<Content> = Vec::new();
                assert(contents_v(children@) =~= Seq::<ContentV>::empty());
                Result::Ok(
                    (
                        Content::Block(Box::new(Block { tag, children, parent: Option::None })),
                        end + 2,
                    ),
                )
            }
        },
    }
}

/// Parse a run of content nodes from `start` up to `closer` (or the end
/// of the input), equal to [`sp_nodes`].
pub fn parse_nodes(t: &str, start: usize, closer: Option<&str>) -> (r: Result<
    (Vec<Content>, usize),
    ParseError,
>)
    requires
        start <= t@.len(),
    ensures
        ({
            let cl = match closer {
                Option::Some(c) => Option::Some(c@),
                Option::None => Option::None,
            };
            match r {
                Result::Ok((cs, j)) => sp_nodes(t@, start as int, cl) == Result::Ok::<
                    (Seq<ContentV>, int),
                    ParseError,
                >((contents_v(cs@), j as int)) && start <= j <= t@.len(),
                Result::Err(e) => sp_nodes(t@, start as int, cl) == Result::Err::<
                    (Seq<ContentV>, int),
                    ParseError,
                >(e),
            }
        }),
    decreases t@.len() - start, 2int,
{
    let ghost cl: Option<Seq<char>> = match closer {
        Option::Some(c) => Option::Some(c@),
        Option::None => Option::None,
    };
    let n = t.unicode_len();
    let mut acc: Vec<Content> = Vec::new();
    let mut cur: usize = start;
    assert(contents_v(acc@) =~= Seq::<ContentV>::empty());
    loop
        invariant
            start <= cur <= n,
            n == t@.len(),
            cl == match closer {
                Option::Some(c) => Option::Some(c@),
                Option::None => Option::None,
            },
            sp_nodes(t@, start as int, cl) == prepend_nodes(
                contents_v(acc@),
                sp_nodes(t@, cur as int, cl),
            ),
        decreases n - cur,
    {
        if let Option::Some(c) = closer {
            if starts_with_str(t, cur, c) {
                let m = c.unicode_len();
                assert(sp_nodes(t@, cur as int, cl) == Result::Ok::<
                    (Seq<ContentV>, int),
                    ParseError,
                >((Seq::empty(), cur + m)));
                assert(contents_v(acc@) + Seq::<ContentV>::empty() =~= contents_v(acc@));
                return Result::Ok((acc, cur + m));
            }
        }
        if cur >= n {
            match closer {
                Option::None => {
                    assert(contents_v(acc@) + Seq::<ContentV>::empty() =~= contents_v(acc@));
                    return Result::Ok((acc, cur));
                },
                Option::Some(_) => {
                    return Result::Err(ParseError::UnterminatedBlock);
                },
            }
        }
        match parse_content(t, cur) {
            Result::Err(e) => {
                return Result::Err(e);
            },
            Result::Ok((c, j)) => {
                proof {
                    let cs0 = contents_v(acc@);
                    let cv = content_v(c);
                    assert(sp_nodes(t@, cur as int, cl) == prepend_nodes(
                        seq![cv],
                        sp_nodes(t@, j as int, cl),
                    ));
                    lemma_contents_v(acc@);
                    lemma_contents_v(acc@.push(c));
                    assert(contents_v(acc@.push(c)) =~= cs0 + seq![cv]);
                    match sp_nodes(t@, j as int, cl) {
                        Result::Ok((rest, k)) => {
                            assert(cs0 + (seq![cv] + rest) =~= (cs0 + seq![cv]) + rest);
                        },
                        Result::Err(_) => {},
                    }
                }
                acc.push(c);
                cur = j;
            },
        }
    }
}

/// Insert or replace an override-table entry in place, as
/// [`assoc_set`] does on its view.
fn override_set(table: &mut Vec<(String, Block)>, key: String, value: Block)
    ensures
        blocks_v(final(table)@) == assoc_set(blocks_v(old(table)@), key@, block_v(value)),
{
    proof {
        lemma_blocks_v(old(table)@);
    }
    let ghost keyv = key@;
    let ghost valv = block_v(value);
    match assoc_position(table, &key) {
        Option::Some(i) => {
            proof {
                lemma_assoc_set_found(blocks_v(old(table)@), keyv, valv, i as int);
            }
            let ghost before = table@;
            table.remove(i);
            table.insert(i, (key, value));
            proof {
                assert(table@ =~= before.update(i as int, (table@[i as int].0, table@[i as int].1)));
                lemma_blocks_v(table@);
                assert(blocks_v(table@) =~= blocks_v(old(table)@).update(i as int, (keyv, valv)));
            }
        },
        Option::None => {
            proof {
                lemma_assoc_set_missing(blocks_v(old(table)@), keyv, valv);
            }
            table.push((key, value));
            proof {
                lemma_blocks_v(table@);
                assert(blocks_v(table@) =~= blocks_v(old(table)@).push((keyv, valv)));
            }
        },
    }
}

/// Gather the named top-level blocks of an extends file's parsed
/// children into an override table, equal to [`collect_blocks_from`].
fn collect_named_blocks(children: Vec<Content>) -> (r: Vec<(String, Block)>)
    ensures
        blocks_v(r@) == collect_blocks_from(Seq::empty(), contents_v(children@)),
{
    let ghost orig = children@;
    let mut rest = children;
    let mut table: Vec<(String, Block)> = Vec::new();
    assert(blocks_v(table@) =~= Seq::<(Seq<char>, BlockV)>::empty());
    while rest.len() > 0
        invariant
            collect_blocks_from(Seq::empty(), contents_v(orig)) == collect_blocks_from(
                blocks_v(table@),
                contents_v(rest@),
            ),
        decreases rest@.len(),
    {
        let ghost prev = rest@;
        let c = rest.remove(0);
        proof {
            assert(prev.remove(0) =~= prev.drop_first());
            lemma_contents_v(prev);
            lemma_contents_v(prev.drop_first());
            assert(contents_v(prev).drop_first() =~= contents_v(prev.drop_first()));
            assert(contents_v(prev)[0] == content_v(c));
        }
        match c {
            Content::Block(b) => {
                let blk = *b;
                let key_opt: Option<String> = match &blk.tag {
                    BlockTag::Named(name) => Option::Some(name.clone()),
                    _ => Option::None,
                };
                match key_opt {
                    Option::Some(key) => {
                        override_set(&mut table, key, blk);
                    },
                    Option::None => {},
                }
            },
            _ => {
                // Non-block content of an extends file is parsed but
                // not retained; only named blocks are inheritable.
            },
        }
    }
    assert(contents_v(rest@) =~= Seq::<ContentV>::empty());
    assert(collect_blocks_from(blocks_v(table@), contents_v(rest@)) == blocks_v(table@));
    table
}

/// Executable copy of the `extends` keyword.
fn extends_kw_chars() -> (v: Vec<char>)
    ensures
        v@ == "extends"@,
{
    proof {
        reveal_strlit("extends");
    }
    let v = vec!['e', 'x', 't', 'e', 'n', 'd', 's'];
    assert(v@ =~= "extends"@);
    v
}

/// Executable scan for an `extends` declaration at the start of the
/// file, equal to [`extends_parse`].
pub fn parse_extends(t: &str) -> (r: Option<(String, usize)>)
    ensures
        match r {
            Option::Some((p, j)) => extends_parse(t@) == Option::Some((p@, j as int)) && j
                <= t@.len(),
            Option::None => extends_parse(t@) is None,
        },
{
    proof {
        reveal_strlit("{%");
    }
    let n = t.unicode_len();
    if !starts_with_str(t, 0, "{%") {
        return Option::None;
    }
    assert(n >= 2);
    match find_pair(t, 2, '%', '}') {
        Option::None => Option::None,
        Option::Some(end) => {
            proof {
                lemma_find_pair_at(t@, 2, '%', '}');
            }
            let kw = extends_kw_chars();
            match quoted_tag_exec(t, 2, end, &kw) {
                Option::Some((path, d)) => if d == end {
                    Option::Some((path, end + 2))
                } else {
                    Option::None
                },
                Option::None => Option::None,
            }
        },
    }
}

/// Parse one template file, equal to the whole-file grammar
/// [`sp_template`]: an `extends` file keeps only its named top-level
/// blocks, any other file is a module keeping all content in order.
pub fn parse(t: &str) -> (r: Result<Template, ParseError>)
    ensures
        match r {
            Result::Ok(tpl) => sp_template(t@) == Result::Ok::<TemplateV, ParseError>(
                template_v(tpl),
            ),
            Result::Err(e) => sp_template(t@) == Result::Err::<TemplateV, ParseError>(e),
        },
{
    match parse_extends(t) {
        Option::Some((path, j)) => match parse_nodes(t, j, Option::None) {
            Result::Ok((children, _)) => {
                let blocks = collect_named_blocks(children);
                Result::Ok(Template::Extends(Extends { parent_path: path, blocks }))
            },
            Result::Err(e) => Result::Err(e),
        },
        Option::None => match parse_nodes(t, 0, Option::None) {
            Result::Ok((children, _)) => Result::Ok(Template::Module(Module { children })),
            Result::Err(e) => Result::Err(e),
        },
    }
}

} // verus!
