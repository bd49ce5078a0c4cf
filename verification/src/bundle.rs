//! A build: the walk's modules, with the bodies that the engine remembers
//! for them, written out as one bundle.

use vstd::prelude::*;
use vstd::string::StringExecFns;
use crate::emit::{
    block_views, bundle_text, emit, lines_after, map_names, Block, BlockView, DEV_MODULE,
};
use crate::engine::{caller_key, resolved_imports, Action, RequireVisitor, Traversal};
use crate::error::BundleError;
use crate::queue::{distinct, lemma_enqueue_unique};
use crate::rewrite::rewriting;
use crate::rewrite::Rewritten;
use crate::module::ModuleType;
use crate::source_map::non_decreasing;
use crate::text::views;

verus! {

/// The block of the development helper: a script under the key `.dev` with
/// the given source, as it was read.
pub open spec fn dev_block(source: Seq<char>) -> BlockView {
    BlockView { key: DEV_MODULE@, kind: ModuleType::Lua, body: source }
}

/// The keys of the blocks, in order.
pub open spec fn block_keys(blocks: Seq<BlockView>) -> Seq<Seq<char>> {
    blocks.map_values(|block: BlockView| block.key)
}

/// Whether one of the modules that the walk has visited has the key of the
/// development helper.
pub open spec fn holds_dev(walk: Traversal) -> bool {
    exists|i: int| 0 <= i < walk.visited() && #[trigger] walk.order@[i]@ == DEV_MODULE@
}

impl RequireVisitor {
    /// The first `n` modules of the walk as blocks.
    pub open spec fn walk_blocks(&self, walk: Traversal, n: int) -> Seq<BlockView> {
        Seq::new(
            n as nat,
            |i: int|
                BlockView {
                    key: walk.order@[i]@,
                    kind: walk.kinds@[i],
                    body: self.body_of(walk.order@[i]@, walk.kinds@[i])->0,
                },
        )
    }

    /// The blocks of a bundle: the modules that the walk visited, in its
    /// order, and after them the development helper, if its source is given
    /// and the walk has not visited a module of its key.
    pub open spec fn bundle_blocks(&self, walk: Traversal, dev_source: Option<Seq<char>>) -> Seq<
        BlockView,
    > {
        match dev_source {
            Some(source) => if holds_dev(walk) {
                self.walk_blocks(walk, walk.visited())
            } else {
                self.walk_blocks(walk, walk.visited()).push(dev_block(source))
            },
            None => self.walk_blocks(walk, walk.visited()),
        }
    }

    /// Writes the bundle for the modules that the walk has visited: the
    /// header, the modules in the walk's order with the bodies that the
    /// engine remembers, the development helper where `dev_source` holds its
    /// source, and the call of the entry module; with it the line map and its
    /// names. No key stands twice in the bundle of a walk that holds none
    /// twice. It fails on the first module of which no body is remembered,
    /// and names it.
    pub fn generate_bundle(&self, walk: &Traversal, dev_source: Option<&str>) -> (bundle: Result<
        (String, Vec<usize>, Vec<String>),
        BundleError,
    >)
        ensures
            match bundle {
                Ok((text, source_map, names)) => {
                    let blocks = self.bundle_blocks(
                        *walk,
                        match dev_source {
                            Some(source) => Some(source@),
                            None => None,
                        },
                    );
                    &&& forall|i: int| 0 <= i < walk.visited() ==> self.knows(*walk, i)
                    &&& text@ == bundle_text(blocks, dev_source is Some, self.entry_file@)
                    &&& source_map@.len() == blocks.len() + 1
                    &&& forall|i: int|
                        0 <= i <= blocks.len() ==> #[trigger] source_map@[i] == lines_after(
                            blocks,
                            i,
                        )
                    &&& non_decreasing(source_map@)
                    &&& views(names@) == map_names(blocks)
                    &&& walk.orderly() ==> distinct(block_keys(blocks))
                },
                Err(error) => !self.backs(*walk) && exists|i: int|
                    {
                        &&& 0 <= i < walk.visited()
                        &&& !#[trigger] self.knows(*walk, i)
                        &&& forall|j: int| 0 <= j < i ==> self.knows(*walk, j)
                        &&& error matches BundleError::ModuleNotFound { key } && key@
                            == walk.order@[i]@
                    },
            },
    {
        let count = if walk.kinds.len() <= walk.order.len() {
            walk.kinds.len()
        } else {
            walk.order.len()
        };
        let mut blocks: Vec<Block> = Vec::new();
        let mut i: usize = 0;
        while i < count
            invariant
                i <= count,
                count == walk.visited(),
                block_views(blocks@) =~= self.walk_blocks(*walk, i as int),
                forall|j: int| 0 <= j < i ==> self.knows(*walk, j),
            decreases count - i,
        {
            let key = &walk.order[i];
            let kind = walk.kinds[i];
            let body = if kind == ModuleType::Json {
                self.all_json.get(key)
            } else {
                self.transformed_memo.get(key)
            };
            match body {
                Some(text) => {
                    let block = Block { key: key.clone(), kind, body: text.clone() };
                    let ghost before = block_views(blocks@);
                    blocks.push(block);
                    proof {
                        assert(block_views(blocks@) =~= before.push(block@));
                        assert(block_views(blocks@) =~= self.walk_blocks(*walk, i + 1));
                    }
                },
                None => {
                    proof {
                        assert(!self.knows(*walk, i as int));
                    }
                    return Err(BundleError::ModuleNotFound { key: key.clone() });
                },
            }
            i = i + 1;
        }
        let mut has_dev = false;
        let helper = String::from_str(DEV_MODULE);
        let mut k: usize = 0;
        while k < count
            invariant
                k <= count,
                count == walk.visited(),
                helper@ == DEV_MODULE@,
                has_dev == (exists|j: int| 0 <= j < k && #[trigger] walk.order@[j]@ == DEV_MODULE@),
            decreases count - k,
        {
            if walk.order[k] == helper {
                has_dev = true;
                proof {
                    assert(walk.order@[k as int]@ == DEV_MODULE@);
                }
            }
            k = k + 1;
        }
        proof {
            if walk.orderly() {
                let keys = block_keys(self.walk_blocks(*walk, walk.visited()));
                assert forall|a: int, b: int| 0 <= a < b < keys.len() implies keys[a] != keys[b] by {
                    assert(views(walk.order@)[a] == walk.order@[a]@);
                    assert(views(walk.order@)[b] == walk.order@[b]@);
                }
            }
        }
        let dev = match dev_source {
            Some(source) => {
                if !has_dev {
                    let block = Block {
                        key: helper,
                        kind: ModuleType::Lua,
                        body: String::from_str(source),
                    };
                    let ghost before = block_views(blocks@);
                    blocks.push(block);
                    proof {
                        assert(block_views(blocks@) =~= before.push(block@));
                        if walk.orderly() {
                            let keys = block_keys(block_views(blocks@));
                            assert forall|a: int, b: int|
                                0 <= a < b < keys.len() implies keys[a] != keys[b] by {
                                if b == keys.len() - 1 {
                                    assert(keys[a] == walk.order@[a]@);
                                } else {
                                    assert(block_keys(before)[a] == keys[a]);
                                    assert(block_keys(before)[b] == keys[b]);
                                }
                            }
                        }
                    }
                }
                true
            },
            None => false,
        };
        Ok(emit(&blocks, dev, self.entry_file.as_str()))
    }
}

/// Forgetting a module twice leaves the engine as forgetting it once does.
pub proof fn lemma_forget_twice(
    before: RequireVisitor,
    once: RequireVisitor,
    twice: RequireVisitor,
    key: Seq<char>,
)
    requires
        before.forgets(once, key),
        once.forgets(twice, key),
    ensures
        before.forgets(twice, key),
        once.same_memos(twice),
{
    assert(before.imports_memo@.remove(key).remove(key) =~= before.imports_memo@.remove(key));
    assert(before.transformed_memo@.remove(key).remove(key) =~= before.transformed_memo@.remove(
        key,
    ));
    assert(before.all_json@.remove(key).remove(key) =~= before.all_json@.remove(key));
}

/// Forgetting a module touches nothing that is remembered of any other.
pub proof fn lemma_forget_only(
    before: RequireVisitor,
    after: RequireVisitor,
    key: Seq<char>,
    other: Seq<char>,
)
    requires
        before.forgets(after, key),
        other != key,
    ensures
        !after.imports_memo@.contains_key(key),
        !after.transformed_memo@.contains_key(key),
        !after.all_json@.contains_key(key),
        after.imports_memo@.contains_key(other) == before.imports_memo@.contains_key(other),
        after.imports_memo@.contains_key(other) ==> after.imports_memo@[other]
            == before.imports_memo@[other],
        after.transformed_memo@.contains_key(other) == before.transformed_memo@.contains_key(
            other,
        ),
        after.transformed_memo@.contains_key(other) ==> after.transformed_memo@[other]
            == before.transformed_memo@[other],
        after.all_json@.contains_key(other) == before.all_json@.contains_key(other),
        after.all_json@.contains_key(other) ==> after.all_json@[other] == before.all_json@[other],
{
}

/// A module that the engine remembers is visited without its source: when it
/// has been located, the walk moves on and asks for no file to be read.
pub proof fn lemma_memo_spares_read(
    engine: RequireVisitor,
    walk: Traversal,
    kind: ModuleType,
    after: Traversal,
    action: Action,
)
    requires
        !walk.finished(),
        engine.is_cached(walk.current(), kind),
        walk.advanced(after, kind, engine.cached_imports(walk.current(), kind)),
        engine.asks(after, action),
    ensures
        !(action is Read),
        !(action is Failed),
        after.kinds@.len() == walk.kinds@.len() + 1,
{
}

/// A script that was recorded from its source is visited the same way from
/// memory: a later walk that stands where the first stood, and finds the
/// script remembered, queues the same keys and ends the step where the first
/// ended it.
pub proof fn lemma_replay_module(
    engine: RequireVisitor,
    walk: Traversal,
    directory: bool,
    rewritten: Rewritten,
    after: RequireVisitor,
    walk_after: Traversal,
    again: Traversal,
    again_after: Traversal,
)
    requires
        !walk.finished(),
        engine.module_recorded(walk, directory, rewritten, after, walk_after),
        views(again.order@) == views(walk.order@),
        again.kinds@ == walk.kinds@,
        again.advanced(
            again_after,
            if directory {
                ModuleType::Directory
            } else {
                ModuleType::Lua
            },
            after.cached_imports(
                again.current(),
                if directory {
                    ModuleType::Directory
                } else {
                    ModuleType::Lua
                },
            ),
        ),
    ensures
        after.is_cached(
            again.current(),
            if directory {
                ModuleType::Directory
            } else {
                ModuleType::Lua
            },
        ),
        views(again_after.order@) == views(walk_after.order@),
        again_after.kinds@ == walk_after.kinds@,
{
    let key = walk.current();
    assert(walk.order@.len() == views(walk.order@).len());
    assert(again.order@.len() == views(again.order@).len());
    assert(views(again.order@)[walk.kinds@.len() as int] == again.current());
    assert(views(walk.order@)[walk.kinds@.len() as int] == key);
    let found = resolved_imports(caller_key(key, directory), views(rewritten.imports@));
    assert(after.imports_memo@.dom().contains(key));
    lemma_enqueue_unique(views(walk.order@), found);
}

/// What the rewriter makes of a source depends on the source alone: two
/// outcomes for one source fail together, or hold the same references, the
/// same messages and the same text. So two builds that read the same files
/// record the same of every module.
pub proof fn lemma_rewriting_determined(
    code: Seq<char>,
    first: Result<Rewritten, String>,
    second: Result<Rewritten, String>,
)
    requires
        rewriting(code, first),
        rewriting(code, second),
    ensures
        first is Ok == second is Ok,
        first is Ok ==> {
            &&& views(first->Ok_0.imports@) == views(second->Ok_0.imports@)
            &&& views(first->Ok_0.errors@) == views(second->Ok_0.errors@)
            &&& first->Ok_0.source@ == second->Ok_0.source@
        },
{
}

/// The bundle is a function of the texts alone: two engines that remember
/// the same bodies, asked for the same entry, write the same bundle for
/// walks that visited the same modules in the same order.
pub proof fn lemma_bundle_determined(
    first: RequireVisitor,
    second: RequireVisitor,
    walk: Traversal,
    again: Traversal,
    dev_source: Option<Seq<char>>,
)
    requires
        views(walk.order@) == views(again.order@),
        walk.kinds@ == again.kinds@,
        forall|i: int|
            0 <= i < walk.visited() ==> first.body_of(walk.order@[i]@, walk.kinds@[i])
                == second.body_of(walk.order@[i]@, walk.kinds@[i]),
        first.entry_file@ == second.entry_file@,
    ensures
        first.bundle_blocks(walk, dev_source) == second.bundle_blocks(again, dev_source),
        bundle_text(first.bundle_blocks(walk, dev_source), dev_source is Some, first.entry_file@)
            == bundle_text(
            second.bundle_blocks(again, dev_source),
            dev_source is Some,
            second.entry_file@,
        ),
{
    assert(walk.order@.len() == views(walk.order@).len());
    assert(again.order@.len() == views(again.order@).len());
    assert(walk.visited() == again.visited());
    assert forall|i: int| 0 <= i < walk.visited() implies walk.order@[i]@ == again.order@[i]@ by {
        assert(views(walk.order@)[i] == walk.order@[i]@);
        assert(views(again.order@)[i] == again.order@[i]@);
    }
    assert(first.walk_blocks(walk, walk.visited()) =~= second.walk_blocks(again, again.visited()));
}

} // verus!
