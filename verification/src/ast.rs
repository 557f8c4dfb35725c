//! The template tree: content nodes, blocks, and whole-file templates,
//! together with their ghost twins used in specifications.
use vstd::prelude::*;

verus! {

/// What kind of control block a `{% ... %}` tag opened.
///
/// Block identity for override matching is the `Named` name; loop, embed
/// and unrecognized blocks are never override targets. `Embed` is the tag
/// that splices another template in place; the keyword it is written
/// with in template source is spelled out by `embed_kw` in the parser.
pub enum BlockTag {
    /// `{% block <name> %}`: a named block, the unit of inheritance.
    Named(String),
    /// `{% for <item> in <collection> %}`: item name and collection path.
    Loop(String, String),
    /// An embed tag: the path of the template spliced in at this position.
    Embed(String),
    /// Any other tag: consumed, renders nothing.
    Unrecognized,
}

/// One node of parsed template content.
pub enum Content {
    /// Literal text, rendered verbatim.
    Text(String),
    /// `{{ path }}`: a dotted variable path, resolved at render time.
    Var(String),
    /// A control block with its body.
    Block(Box<Block>),
    /// `{{ parent() }}`: placeholder for the overridden block's previous
    /// version; `None` until inheritance resolution attaches one.
    ParentMarker(Option<Box<Block>>),
}

/// A named, looped, or embedded sub-tree within a template.
pub struct Block {
    pub tag: BlockTag,
    pub children: Vec<Content>,
    /// The next-less-derived version of this same named block, set once
    /// during inheritance resolution.
    pub parent: Option<Box<Block>>,
}

/// A template with no further inheritance dependency; the unit rendered.
pub struct Module {
    pub children: Vec<Content>,
}

/// A template that extends another: the parent's path and the named
/// blocks this template overrides.
pub struct Extends {
    pub parent_path: String,
    pub blocks: Vec<(String, Block)>,
}

/// Parsed result of one source file.
pub enum Template {
    Module(Module),
    Extends(Extends),
}

/// Why parsing a template file failed; terminal for that file.
#[derive(Debug, PartialEq, Eq, Structural, Clone, Copy)]
pub enum ParseError {
    /// A `{{` with no closing `}}`.
    UnterminatedVariable,
    /// A `{%` with no closing `%}`.
    UnterminatedTag,
    /// A block or loop body with no matching close tag.
    UnterminatedBlock,
    /// The input ends immediately after an opening delimiter.
    UnexpectedEndOfInput,
}

/// A fatal error while rendering.
#[derive(Debug, PartialEq, Eq, Structural, Clone, Copy)]
pub enum RenderError {
    /// A loop's collection path did not resolve to a list.
    NotIterable,
}

/// Ghost twin of [`BlockTag`].
pub enum BlockTagV {
    Named(Seq<char>),
    Loop(Seq<char>, Seq<char>),
    Embed(Seq<char>),
    Unrecognized,
}

/// Ghost twin of [`Content`].
pub enum ContentV {
    Text(Seq<char>),
    Var(Seq<char>),
    Block(Box<BlockV>),
    ParentMarker(Option<Box<BlockV>>),
}

/// Ghost twin of [`Block`].
pub struct BlockV {
    pub tag: BlockTagV,
    pub children: Seq<ContentV>,
    pub parent: Option<Box<BlockV>>,
}

/// Ghost twin of [`Module`].
pub struct ModuleV {
    pub children: Seq<ContentV>,
}

/// Ghost twin of [`Extends`].
pub struct ExtendsV {
    pub parent_path: Seq<char>,
    pub blocks: Seq<(Seq<char>, BlockV)>,
}

/// Ghost twin of [`Template`].
pub enum TemplateV {
    Module(ModuleV),
    Extends(ExtendsV),
}

/// View of a [`BlockTag`].
pub open spec fn tag_v(t: BlockTag) -> BlockTagV {
    match t {
        BlockTag::Named(n) => BlockTagV::Named(n@),
        BlockTag::Loop(v, c) => BlockTagV::Loop(v@, c@),
        BlockTag::Embed(p) => BlockTagV::Embed(p@),
        BlockTag::Unrecognized => BlockTagV::Unrecognized,
    }
}

/// View of a [`Content`] node.
pub open spec fn content_v(c: Content) -> ContentV
    decreases c,
{
    match c {
        Content::Text(s) => ContentV::Text(s@),
        Content::Var(p) => ContentV::Var(p@),
        Content::Block(b) => ContentV::Block(Box::new(block_v(*b))),
        Content::ParentMarker(p) => match p {
            Option::None => ContentV::ParentMarker(Option::None),
            Option::Some(b) => ContentV::ParentMarker(Option::Some(Box::new(block_v(*b)))),
        },
    }
}

/// View of a [`Block`].
pub open spec fn block_v(b: Block) -> BlockV
    decreases b,
{
    BlockV {
        tag: tag_v(b.tag),
        children: contents_v(b.children@),
        parent: match b.parent {
            Option::None => Option::None,
            Option::Some(p) => Option::Some(Box::new(block_v(*p))),
        },
    }
}

/// View of a sequence of [`Content`] nodes, element by element.
pub open spec fn contents_v(s: Seq<Content>) -> Seq<ContentV>
    decreases s,
{
    if s.len() == 0 {
        Seq::empty()
    } else {
        seq![content_v(s[0])] + contents_v(s.drop_first())
    }
}

/// View of a [`Module`].
pub open spec fn module_v(m: Module) -> ModuleV {
    ModuleV { children: contents_v(m.children@) }
}

/// View of an override table, element by element.
pub open spec fn blocks_v(s: Seq<(String, Block)>) -> Seq<(Seq<char>, BlockV)>
    decreases s,
{
    if s.len() == 0 {
        Seq::empty()
    } else {
        seq![(s[0].0@, block_v(s[0].1))] + blocks_v(s.drop_first())
    }
}

/// View of an [`Extends`].
pub open spec fn extends_v(e: Extends) -> ExtendsV {
    ExtendsV { parent_path: e.parent_path@, blocks: blocks_v(e.blocks@) }
}

/// View of a [`Template`].
pub open spec fn template_v(t: Template) -> TemplateV {
    match t {
        Template::Module(m) => TemplateV::Module(module_v(m)),
        Template::Extends(e) => TemplateV::Extends(extends_v(e)),
    }
}

/// `contents_v` maps the view over the sequence pointwise.
pub proof fn lemma_contents_v(s: Seq<Content>)
    ensures
        contents_v(s).len() == s.len(),
        forall|i: int| 0 <= i < s.len() ==> contents_v(s)[i] == content_v(s[i]),
    decreases s,
{
    if s.len() > 0 {
        lemma_contents_v(s.drop_first());
    }
}

/// `blocks_v` maps the view over the table pointwise.
pub proof fn lemma_blocks_v(s: Seq<(String, Block)>)
    ensures
        blocks_v(s).len() == s.len(),
        forall|i: int| 0 <= i < s.len() ==> blocks_v(s)[i] == (s[i].0@, block_v(s[i].1)),
    decreases s,
{
    if s.len() > 0 {
        lemma_blocks_v(s.drop_first());
    }
}

impl Block {
    /// The name under which this block can be overridden: the `Named`
    /// name; loop, embed and unrecognized blocks have none.
    pub fn block_name(&self) -> (r: Option<String>)
        ensures
            match r {
                Option::Some(n) => tag_v(self.tag) == BlockTagV::Named(n@),
                Option::None => !(tag_v(self.tag) is Named),
            },
    {
        match &self.tag {
            BlockTag::Named(name) => Option::Some(name.clone()),
            _ => Option::None,
        }
    }
}

/// A short description of a parse failure, shown in place of output.
pub open spec fn parse_error_text(e: ParseError) -> Seq<char> {
    match e {
        ParseError::UnterminatedVariable => "unterminated variable"@,
        ParseError::UnterminatedTag => "unterminated tag"@,
        ParseError::UnterminatedBlock => "unterminated block"@,
        ParseError::UnexpectedEndOfInput => "unexpected end of input"@,
    }
}

impl ParseError {
    /// The error's message text.
    pub fn message(&self) -> (r: String)
        ensures
            r@ == parse_error_text(*self),
    {
        match self {
            ParseError::UnterminatedVariable => "unterminated variable".to_owned(),
            ParseError::UnterminatedTag => "unterminated tag".to_owned(),
            ParseError::UnterminatedBlock => "unterminated block".to_owned(),
            ParseError::UnexpectedEndOfInput => "unexpected end of input".to_owned(),
        }
    }
}

/// A short description of a render failure, shown in place of output.
pub open spec fn render_error_text(e: RenderError) -> Seq<char> {
    match e {
        RenderError::NotIterable => "loop collection is not iterable"@,
    }
}

impl RenderError {
    /// The error's message text.
    pub fn message(&self) -> (r: String)
        ensures
            r@ == render_error_text(*self),
    {
        match self {
            RenderError::NotIterable => "loop collection is not iterable".to_owned(),
        }
    }
}

} // verus!
