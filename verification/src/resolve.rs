//! Inheritance resolution: merging an extends chain's override tables
//! and applying the merged overrides to the inheritance root's module.
//!
//! Per block name the result is a singly linked chain ordered most
//! derived first, attached through `{{ parent() }}` markers: attaching a
//! less-derived block walks the chain to the first unset marker. A block
//! with no marker drops the less-derived content entirely.
use vstd::prelude::*;

use crate::ast::{
    block_v, blocks_v, content_v, contents_v, lemma_blocks_v, lemma_contents_v, module_v,
    extends_v, Block, BlockTag, BlockV, Content, ContentV, Extends, Module, ModuleV,
};
use crate::table::{
    assoc_get, assoc_position, assoc_remove, assoc_set, lemma_assoc_get_found,
    lemma_assoc_get_missing, lemma_assoc_remove_found, lemma_assoc_set_found,
    lemma_assoc_set_missing,
};

verus! {

/// A size measure on content nodes, used for termination of chain walks.
pub open spec fn content_size(c: Content) -> nat
    decreases c,
{
    match c {
        Content::Text(_) => 1,
        Content::Var(_) => 1,
        Content::Block(b) => 1 + block_size(*b),
        Content::ParentMarker(p) => match p {
            Option::None => 1,
            Option::Some(b) => 1 + block_size(*b),
        },
    }
}

/// A size measure on blocks.
pub open spec fn block_size(b: Block) -> nat
    decreases b,
{
    1 + contents_size(b.children@) + match b.parent {
        Option::None => 0,
        Option::Some(p) => block_size(*p),
    }
}

/// A size measure on content sequences.
pub open spec fn contents_size(s: Seq<Content>) -> nat
    decreases s,
{
    if s.len() == 0 {
        0
    } else {
        content_size(s[0]) + contents_size(s.drop_first())
    }
}

/// Every content node has positive size.
pub proof fn lemma_content_size_pos(c: Content)
    ensures
        content_size(c) >= 1,
{
    match c {
        Content::Text(_) => {},
        Content::Var(_) => {},
        Content::Block(_) => {},
        Content::ParentMarker(_) => {},
    }
}

/// Attach `parent` as the least-derived link of `child`'s override
/// chain: replace the first unset parent marker among `child`'s
/// children, walking through an already-attached marker; where no
/// marker exists, `parent` is dropped.
pub open spec fn sp_extend_block(parent: BlockV, child: BlockV) -> BlockV
    decreases child,
{
    BlockV {
        tag: child.tag,
        parent: child.parent,
        children: sp_extend_children(parent, child.children),
    }
}

/// The children of a block with `parent` attached at the first unset marker.
pub open spec fn sp_extend_children(parent: BlockV, cs: Seq<ContentV>) -> Seq<ContentV>
    decreases cs,
{
    if cs.len() == 0 {
        cs
    } else {
        match cs[0] {
            ContentV::ParentMarker(p) => match p {
                Option::None => seq![
                    ContentV::ParentMarker(Option::Some(Box::new(parent))),
                ] + cs.drop_first(),
                Option::Some(b) => seq![
                    ContentV::ParentMarker(Option::Some(Box::new(sp_extend_block(parent, *b)))),
                ] + cs.drop_first(),
            },
            _ => seq![cs[0]] + sp_extend_children(parent, cs.drop_first()),
        }
    }
}

/// Merge an ancestor's override table into the accumulated one: an
/// incoming block under a known name is attached at the end of that
/// name's chain; a new name is inserted directly.
pub open spec fn sp_extends_add(
    sum: Seq<(Seq<char>, BlockV)>,
    incoming: Seq<(Seq<char>, BlockV)>,
) -> Seq<(Seq<char>, BlockV)>
    decreases incoming,
{
    if incoming.len() == 0 {
        sum
    } else {
        let name = incoming[0].0;
        let pblock = incoming[0].1;
        let sum2 = match assoc_get(sum, name) {
            Option::Some(child) => assoc_set(sum, name, sp_extend_block(pblock, child)),
            Option::None => assoc_set(sum, name, pblock),
        };
        sp_extends_add(sum2, incoming.drop_first())
    }
}

/// Apply the merged overrides to the root's children, left to right: a
/// named block whose name has an override is exchanged for the chain
/// head, with the root's own content attached as the chain's last link;
/// each override entry is used at most once.
pub open spec fn sp_apply_children(
    cs: Seq<ContentV>,
    exts: Seq<(Seq<char>, BlockV)>,
) -> (Seq<ContentV>, Seq<(Seq<char>, BlockV)>)
    decreases cs,
{
    if cs.len() == 0 {
        (cs, exts)
    } else {
        let (head2, exts2) = match cs[0] {
            ContentV::Block(b) => match b.tag {
                crate::ast::BlockTagV::Named(name) => match assoc_get(exts, name) {
                    Option::Some(ext) => (
                        ContentV::Block(Box::new(sp_extend_block(*b, ext))),
                        assoc_remove(exts, name),
                    ),
                    Option::None => (cs[0], exts),
                },
                _ => (cs[0], exts),
            },
            _ => (cs[0], exts),
        };
        let (tail2, exts3) = sp_apply_children(cs.drop_first(), exts2);
        (seq![head2] + tail2, exts3)
    }
}

/// The module with all overrides applied.
pub open spec fn sp_apply(m: ModuleV, exts: Seq<(Seq<char>, BlockV)>) -> ModuleV {
    ModuleV { children: sp_apply_children(m.children, exts).0 }
}

/// Attach `parent` into `child`'s override chain, equal to [`sp_extend_block`].
pub fn extend_block(parent: Block, child: Block) -> (r: Block)
    ensures
        block_v(r) == sp_extend_block(block_v(parent), block_v(child)),
    decreases block_size(child), 1int,
{
    let Block { tag, children, parent: chain } = child;
    let new_children = extend_children(parent, children);
    Block { tag, children: new_children, parent: chain }
}

/// Walk `children` to the first parent marker and attach there, equal
/// to [`sp_extend_children`].
fn extend_children(parent: Block, children: Vec<Content>) -> (r: Vec<Content>)
    ensures
        contents_v(r@) == sp_extend_children(block_v(parent), contents_v(children@)),
    decreases contents_size(children@), 0int,
{
    let ghost orig = children@;
    let ghost pv = block_v(parent);
    let mut rest = children;
    if rest.len() == 0 {
        assert(contents_v(rest@) =~= Seq::<ContentV>::empty());
        return rest;
    }
    let head = rest.remove(0);
    proof {
        assert(rest@ =~= orig.drop_first());
        lemma_contents_v(orig);
        lemma_contents_v(orig.drop_first());
        assert(contents_v(orig).drop_first() =~= contents_v(orig.drop_first()));
        assert(contents_v(orig)[0] == content_v(head));
        lemma_content_size_pos(head);
    }
    match head {
        Content::ParentMarker(popt) => {
            let attached: Content = match popt {
                Option::None => Content::ParentMarker(Option::Some(Box::new(parent))),
                Option::Some(b) => {
                    proof {
                        assert(content_size(head) == 1 + block_size(*b));
                    }
                    let inner = extend_block(parent, *b);
                    Content::ParentMarker(Option::Some(Box::new(inner)))
                },
            };
            let mut out: Vec<Content> = Vec::new();
            out.push(attached);
            let mut tail = rest;
            out.append(&mut tail);
            proof {
                lemma_contents_v(out@);
                lemma_contents_v(orig.drop_first());
                assert(contents_v(out@) =~= sp_extend_children(pv, contents_v(orig)));
            }
            out
        },
        other => {
            let new_rest = extend_children(parent, rest);
            let mut out: Vec<Content> = Vec::new();
            out.push(other);
            let mut tail = new_rest;
            out.append(&mut tail);
            proof {
                lemma_contents_v(out@);
                lemma_contents_v(new_rest@);
                assert(contents_v(out@) =~= seq![content_v(other)] + contents_v(new_rest@));
                assert(contents_v(out@) =~= sp_extend_children(pv, contents_v(orig)));
            }
            out
        },
    }
}

impl Extends {
    /// Merge a newly loaded ancestor's overrides into this table, equal
    /// to [`sp_extends_add`]; the result carries the ancestor's parent path.
    #[verifier::loop_isolation(false)]
    pub fn add(self, other: Extends) -> (r: Extends)
        ensures
            extends_v(r).parent_path == other.parent_path@,
            extends_v(r).blocks == sp_extends_add(extends_v(self).blocks, extends_v(other).blocks),
    {
        let Extends { parent_path: _, blocks: sum0 } = self;
        let Extends { parent_path: opp, blocks: incoming0 } = other;
        let ghost sum_orig = blocks_v(sum0@);
        let ghost inc_orig = blocks_v(incoming0@);
        let mut sum = sum0;
        let mut incoming = incoming0;
        while incoming.len() > 0
            invariant
                sp_extends_add(sum_orig, inc_orig) == sp_extends_add(
                    blocks_v(sum@),
                    blocks_v(incoming@),
                ),
            decreases incoming@.len(),
        {
            let ghost prev_inc = incoming@;
            let ghost prev_sum = blocks_v(sum@);
            let (name, pblock) = incoming.remove(0);
            proof {
                assert(incoming@ =~= prev_inc.drop_first());
                lemma_blocks_v(prev_inc);
                lemma_blocks_v(prev_inc.drop_first());
                assert(blocks_v(prev_inc).drop_first() =~= blocks_v(prev_inc.drop_first()));
                assert(blocks_v(prev_inc)[0] == (name@, block_v(pblock)));
                lemma_blocks_v(sum@);
            }
            let ghost namev = name@;
            let ghost pbv = block_v(pblock);
            match assoc_position(&sum, &name) {
                Option::Some(i) => {
                    proof {
                        lemma_assoc_get_found(prev_sum, namev, i as int);
                    }
                    let ghost before = sum@;
                    let (k, child) = sum.remove(i);
                    let ghost childv = block_v(child);
                    let merged = extend_block(pblock, child);
                    sum.insert(i, (k, merged));
                    proof {
                        assert(sum@ =~= before.update(
                            i as int,
                            (sum@[i as int].0, sum@[i as int].1),
                        ));
                        lemma_blocks_v(sum@);
                        lemma_blocks_v(before);
                        assert(blocks_v(sum@) =~= prev_sum.update(
                            i as int,
                            (namev, sp_extend_block(pbv, childv)),
                        ));
                        lemma_assoc_set_found(prev_sum, namev, sp_extend_block(pbv, childv), i as int);
                    }
                },
                Option::None => {
                    proof {
                        lemma_assoc_get_missing(prev_sum, namev);
                        lemma_assoc_set_missing(prev_sum, namev, pbv);
                    }
                    let ghost before = sum@;
                    sum.push((name, pblock));
                    proof {
                        lemma_blocks_v(sum@);
                        lemma_blocks_v(before);
                        assert(blocks_v(sum@) =~= prev_sum.push((namev, pbv)));
                    }
                },
            }
        }
        assert(blocks_v(incoming@) =~= Seq::<(Seq<char>, BlockV)>::empty());
        Extends { parent_path: opp, blocks: sum }
    }
}

impl Module {
    /// Exchange each overridden named block of this inheritance root
    /// for its override chain, attaching the root's own content as the
    /// chain's last link, equal to [`sp_apply`]. Overrides whose names
    /// the root does not declare are dropped.
    #[verifier::loop_isolation(false)]
    pub fn apply_extensions(self, exts: Extends) -> (r: Module)
        ensures
            module_v(r) == sp_apply(module_v(self), extends_v(exts).blocks),
    {
        let Module { children: children0 } = self;
        let Extends { parent_path: _, blocks: remaining0 } = exts;
        let ghost cs_orig = contents_v(children0@);
        let ghost exts_orig = blocks_v(remaining0@);
        let mut rest = children0;
        let mut remaining = remaining0;
        let mut out: Vec<Content> = Vec::new();
        assert(contents_v(out@) =~= Seq::<ContentV>::empty());
        while rest.len() > 0
            invariant
                sp_apply_children(cs_orig, exts_orig).0 == contents_v(out@) + sp_apply_children(
                    contents_v(rest@),
                    blocks_v(remaining@),
                ).0,
                sp_apply_children(cs_orig, exts_orig).1 == sp_apply_children(
                    contents_v(rest@),
                    blocks_v(remaining@),
                ).1,
            decreases rest@.len(),
        {
            let ghost prev_rest = rest@;
            let ghost prev_exts = blocks_v(remaining@);
            let head = rest.remove(0);
            proof {
                assert(rest@ =~= prev_rest.drop_first());
                lemma_contents_v(prev_rest);
                lemma_contents_v(prev_rest.drop_first());
                assert(contents_v(prev_rest).drop_first() =~= contents_v(prev_rest.drop_first()));
                assert(contents_v(prev_rest)[0] == content_v(head));
                lemma_blocks_v(remaining@);
            }
            let ghost out_before = contents_v(out@);
            match head {
                Content::Block(b) => {
                    let blk = *b;
                    let name_opt: Option<String> = match &blk.tag {
                        BlockTag::Named(name) => Option::Some(name.clone()),
                        _ => Option::None,
                    };
                    match name_opt {
                        Option::Some(name) => {
                            let ghost namev = name@;
                            match assoc_position(&remaining, &name) {
                                Option::Some(i) => {
                                    proof {
                                        lemma_assoc_get_found(prev_exts, namev, i as int);
                                        lemma_assoc_remove_found(prev_exts, namev, i as int);
                                    }
                                    let ghost before = remaining@;
                                    let (_k, ext) = remaining.remove(i);
                                    let ghost extv = block_v(ext);
                                    let merged = extend_block(blk, ext);
                                    proof {
                                        assert(remaining@ =~= before.remove(i as int));
                                        lemma_blocks_v(before);
                                        lemma_blocks_v(remaining@);
                                        assert(blocks_v(remaining@) =~= prev_exts.remove(
                                            i as int,
                                        ));
                                    }
                                    let ghost prev_out = out@;
                                    out.push(Content::Block(Box::new(merged)));
                                    proof {
                                        lemma_contents_v(prev_out);
                                        lemma_contents_v(out@);
                                        assert(contents_v(out@) =~= contents_v(prev_out).push(
                                            ContentV::Block(
                                                Box::new(sp_extend_block(block_v(blk), extv)),
                                            ),
                                        ));
                                    }
                                },
                                Option::None => {
                                    proof {
                                        lemma_assoc_get_missing(prev_exts, namev);
                                    }
                                    let ghost prev_out = out@;
                                    out.push(Content::Block(Box::new(blk)));
                                    proof {
                                        lemma_contents_v(prev_out);
                                        lemma_contents_v(out@);
                                        assert(contents_v(out@) =~= contents_v(prev_out).push(
                                            content_v(Content::Block(Box::new(blk))),
                                        ));
                                    }
                                },
                            }
                        },
                        Option::None => {
                            let ghost prev_out = out@;
                            out.push(Content::Block(Box::new(blk)));
                            proof {
                                lemma_contents_v(prev_out);
                                lemma_contents_v(out@);
                                assert(contents_v(out@) =~= contents_v(prev_out).push(
                                    content_v(Content::Block(Box::new(blk))),
                                ));
                            }
                        },
                    }
                },
                other => {
                    let ghost prev_out = out@;
                    let ghost headv = content_v(other);
                    out.push(other);
                    proof {
                        lemma_contents_v(prev_out);
                        lemma_contents_v(out@);
                        assert(contents_v(out@) =~= contents_v(prev_out).push(headv));
                    }
                },
            }
            proof {
                let step = sp_apply_children(contents_v(prev_rest), prev_exts);
                let tail = sp_apply_children(contents_v(rest@), blocks_v(remaining@));
                assert(step.0 =~= contents_v(out@).skip(out_before.len() as int) + tail.0);
                assert(contents_v(out@) + tail.0 =~= out_before + step.0);
            }
        }
        assert(contents_v(rest@) =~= Seq::<ContentV>::empty());
        Module { children: out }
    }
}

} // verus!
