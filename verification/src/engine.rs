//! The graph engine: it walks the modules that the entry module reaches,
//! breadth first, and remembers for each module what it imports and what its
//! source became, so that a later build reads only what has changed.
//!
//! The engine reads no file itself. A walk is a conversation: the engine says
//! which module to locate or which file to read, the caller does so and
//! answers, and the engine says what comes next.

use vstd::prelude::*;
use vstd::string::StringExecFns;
use crate::error::{keyed, keyed_message, BundleError, RequireError};
use crate::json::{json_document, json_module, json_module_body, parse_json, Json};
use crate::memo::Memo;
use crate::module::{candidate_path, path_of, ModuleType};
use crate::path::{parse_path, resolve};
use crate::queue::{distinct, enqueue, enqueue_all, lemma_enqueue, unique};
use crate::rewrite::{rewrite_source, rewriting, Rewritten};
use crate::text::views;

verus! {

/// The bundler's engine: the project it works on and what it remembers of
/// the modules it has seen.
pub struct RequireVisitor {
    /// The directory that holds the sources.
    pub src_dir: String,
    /// The key of the module that runs first.
    pub entry_file: String,
    /// The key of the module that was rewritten last.
    pub cur_file: String,
    /// The references that module holds, as written.
    pub cur_imports: Vec<String>,
    /// What was found wrong with it.
    pub cur_errors: Vec<String>,
    /// For each script seen, the keys of the modules it imports, each once,
    /// in the order in which it names them.
    pub imports_memo: Memo<Vec<String>>,
    /// For each script seen, its source as the bundle holds it.
    pub transformed_memo: Memo<String>,
    /// For each data module seen, its body as the bundle holds it.
    pub all_json: Memo<String>,
}

/// A walk over the modules that the entry reaches.
#[derive(Debug)]
pub struct Traversal {
    /// The keys found so far, in the order in which they were first named.
    pub order: Vec<String>,
    /// The kinds of the modules visited so far: `kinds[i]` is that of
    /// `order[i]`.
    pub kinds: Vec<ModuleType>,
    /// The kind of the module whose source is awaited.
    pub pending: Option<ModuleType>,
}

/// What the caller of a walk has found out.
#[derive(Debug)]
pub enum Event {
    /// A file of this kind stands for the module asked about.
    Located(ModuleType),
    /// No file stands for it.
    Missing,
    /// The content of the file asked for.
    Source(String),
    /// The file could not be read, and why.
    Unreadable(String),
}

/// What a walk needs next.
#[derive(Debug)]
pub enum Action {
    /// Find out what kind of file stands for this key.
    Locate(String),
    /// Read the file at this path.
    Read(String),
    /// Nothing: every module was visited.
    Done,
    /// Nothing: the build has failed.
    Failed(BundleError),
}

/// The key under which a module resolves its own references: its key as a
/// file, which for a directory is the `init` inside it.
pub open spec fn caller_key(key: Seq<char>, directory: bool) -> Seq<char> {
    if directory {
        key + "/init"@
    } else {
        key
    }
}

/// The keys that the references of a module name.
pub open spec fn resolved_imports(caller: Seq<char>, references: Seq<Seq<char>>) -> Seq<
    Seq<char>,
> {
    references.map_values(|reference: Seq<char>| resolve(caller, reference))
}

impl Traversal {
    /// Every key found has been visited.
    pub open spec fn finished(&self) -> bool {
        self.kinds@.len() >= self.order@.len()
    }

    /// The key that is visited next.
    pub open spec fn current(&self) -> Seq<char>
        recommends
            !self.finished(),
    {
        self.order@[self.kinds@.len() as int]@
    }

    /// The walk after a visit of its current module that found `imports`.
    pub open spec fn advanced(
        &self,
        after: Traversal,
        kind: ModuleType,
        imports: Seq<Seq<char>>,
    ) -> bool {
        &&& views(after.order@) == enqueue(views(self.order@), imports)
        &&& after.kinds@ == self.kinds@.push(kind)
        &&& after.pending is None
    }

    /// How many modules the walk has visited.
    pub open spec fn visited(&self) -> int {
        if self.kinds@.len() <= self.order@.len() {
            self.kinds@.len() as int
        } else {
            self.order@.len() as int
        }
    }

    /// No key was found twice.
    pub open spec fn orderly(&self) -> bool {
        distinct(views(self.order@))
    }

    /// Whether every key found has been visited.
    pub fn is_finished(&self) -> (done: bool)
        ensures
            done == self.finished(),
    {
        self.kinds.len() >= self.order.len()
    }
}

impl RequireVisitor {
    /// An engine for the project in `src_dir` whose entry module is
    /// `entry_file`. It remembers nothing yet.
    pub fn new(src_dir: &str, entry_file: &str) -> (engine: Self)
        ensures
            engine.src_dir@ == src_dir@,
            engine.entry_file@ == entry_file@,
            engine.cur_file@ == src_dir@,
            engine.cur_imports@.len() == 0,
            engine.cur_errors@.len() == 0,
            engine.imports_memo@ == Map::<Seq<char>, Vec<String>>::empty(),
            engine.transformed_memo@ == Map::<Seq<char>, String>::empty(),
            engine.all_json@ == Map::<Seq<char>, String>::empty(),
            engine.paired(),
    {
        Self {
            src_dir: String::from_str(src_dir),
            entry_file: String::from_str(entry_file),
            cur_file: String::from_str(src_dir),
            cur_imports: Vec::new(),
            cur_errors: Vec::new(),
            imports_memo: Memo::new(),
            transformed_memo: Memo::new(),
            all_json: Memo::new(),
        }
    }

    /// The engine remembers the same of every module but `key`, and nothing
    /// of `key`.
    pub open spec fn forgets(&self, after: RequireVisitor, key: Seq<char>) -> bool {
        &&& after.imports_memo@ == self.imports_memo@.remove(key)
        &&& after.transformed_memo@ == self.transformed_memo@.remove(key)
        &&& after.all_json@ == self.all_json@.remove(key)
        &&& after.src_dir == self.src_dir
        &&& after.entry_file == self.entry_file
        &&& after.cur_file == self.cur_file
        &&& after.cur_imports == self.cur_imports
        &&& after.cur_errors == self.cur_errors
    }

    /// The two engines remember the same of every module.
    pub open spec fn same_memos(&self, other: RequireVisitor) -> bool {
        &&& other.imports_memo@ == self.imports_memo@
        &&& other.transformed_memo@ == self.transformed_memo@
        &&& other.all_json@ == self.all_json@
    }

    /// The body that the engine remembers for a module of that kind.
    pub open spec fn body_of(&self, key: Seq<char>, kind: ModuleType) -> Option<Seq<char>> {
        if kind == ModuleType::Json {
            if self.all_json@.contains_key(key) {
                Some(self.all_json@[key]@)
            } else {
                None
            }
        } else {
            if self.transformed_memo@.contains_key(key) {
                Some(self.transformed_memo@[key]@)
            } else {
                None
            }
        }
    }

    /// Whether the engine remembers a body for the `i`-th module of the walk.
    pub open spec fn knows(&self, walk: Traversal, i: int) -> bool {
        self.body_of(walk.order@[i]@, walk.kinds@[i]) is Some
    }

    /// Whether the engine remembers a body for every module that the walk
    /// has visited.
    pub open spec fn backs(&self, walk: Traversal) -> bool {
        forall|i: int| 0 <= i < walk.visited() ==> self.knows(walk, i)
    }

    /// The engine remembers the imports of exactly those scripts of which it
    /// remembers the source.
    pub open spec fn paired(&self) -> bool {
        self.imports_memo@.dom() == self.transformed_memo@.dom()
    }

    /// Whether the engine can visit the module without its source.
    pub open spec fn is_cached(&self, key: Seq<char>, kind: ModuleType) -> bool {
        if kind == ModuleType::Json {
            self.all_json@.contains_key(key)
        } else {
            self.imports_memo@.contains_key(key)
        }
    }

    /// The imports that the engine remembers for a module of that kind: none
    /// for a data module.
    pub open spec fn cached_imports(&self, key: Seq<char>, kind: ModuleType) -> Seq<Seq<char>> {
        if kind == ModuleType::Json {
            Seq::<Seq<char>>::empty()
        } else {
            views(self.imports_memo@[key]@)
        }
    }

    /// What the engine asks of the caller of a walk: nothing when the walk is
    /// finished, the kind of its current module when none is pending, that
    /// module's file otherwise.
    pub open spec fn asks(&self, walk: Traversal, action: Action) -> bool {
        if walk.finished() {
            action is Done
        } else if walk.pending is None {
            action matches Action::Locate(key) && key@ == walk.current()
        } else {
            action matches Action::Read(path) && path@ == path_of(
                self.src_dir@,
                walk.current(),
                walk.pending->0,
            )
        }
    }

    /// The engine and the walk after the walk's current module was visited
    /// as a data module that holds `json`: its body is remembered and nothing
    /// is queued.
    pub open spec fn json_recorded(
        &self,
        walk: Traversal,
        json: Json,
        after: RequireVisitor,
        walk_after: Traversal,
    ) -> bool {
        let key = walk.current();
        &&& walk.advanced(walk_after, ModuleType::Json, Seq::<Seq<char>>::empty())
        &&& after.all_json@.dom() == self.all_json@.dom().insert(key)
        &&& after.all_json@[key]@ == json_module(json)
        &&& forall|k: Seq<char>|
            k != key && self.all_json@.contains_key(k) ==> after.all_json@[k] == self.all_json@[k]
        &&& after.imports_memo == self.imports_memo
        &&& after.transformed_memo == self.transformed_memo
        &&& after.src_dir == self.src_dir
        &&& after.entry_file == self.entry_file
        &&& after.cur_file == self.cur_file
        &&& after.cur_imports == self.cur_imports
        &&& after.cur_errors == self.cur_errors
    }

    /// The engine and the walk after the walk's current module was visited
    /// as a script that was rewritten to `rewritten`. Its references are
    /// resolved from its own key, or from the `init` inside it if it is a
    /// directory; the keys they name are remembered, each once and in order,
    /// beside the new source; those that the walk had not met are queued.
    pub open spec fn module_recorded(
        &self,
        walk: Traversal,
        directory: bool,
        rewritten: Rewritten,
        after: RequireVisitor,
        walk_after: Traversal,
    ) -> bool {
        let key = walk.current();
        let found = resolved_imports(caller_key(key, directory), views(rewritten.imports@));
        &&& walk.advanced(
            walk_after,
            if directory {
                ModuleType::Directory
            } else {
                ModuleType::Lua
            },
            found,
        )
        &&& after.imports_memo@.dom() == self.imports_memo@.dom().insert(key)
        &&& views(after.imports_memo@[key]@) == unique(found)
        &&& forall|k: Seq<char>|
            k != key && self.imports_memo@.contains_key(k) ==> after.imports_memo@[k]
                == self.imports_memo@[k]
        &&& after.transformed_memo@.dom() == self.transformed_memo@.dom().insert(key)
        &&& after.transformed_memo@[key] == rewritten.source
        &&& forall|k: Seq<char>|
            k != key && self.transformed_memo@.contains_key(k) ==> after.transformed_memo@[k]
                == self.transformed_memo@[k]
        &&& after.all_json == self.all_json
        &&& after.src_dir == self.src_dir
        &&& after.entry_file == self.entry_file
        &&& after.cur_file@ == key
        &&& after.cur_imports == rewritten.imports
        &&& after.cur_errors == rewritten.errors
    }

    /// The engine after a script was found faulty: nothing is remembered of
    /// it, but what the rewriter gathered in it is kept to be looked at.
    pub open spec fn module_refused(
        &self,
        key: Seq<char>,
        rewritten: Rewritten,
        after: RequireVisitor,
    ) -> bool {
        &&& after.imports_memo == self.imports_memo
        &&& after.transformed_memo == self.transformed_memo
        &&& after.all_json == self.all_json
        &&& after.src_dir == self.src_dir
        &&& after.entry_file == self.entry_file
        &&& after.cur_file@ == key
        &&& after.cur_imports == rewritten.imports
        &&& after.cur_errors == rewritten.errors
    }

    /// What becomes of the engine and the walk when the text of the current
    /// data module has been read as `parsed`: a document is recorded, and a
    /// text that holds none fails the build with the parser's message and
    /// changes nothing.
    pub open spec fn json_settled(
        &self,
        walk: Traversal,
        parsed: Result<Json, String>,
        after: RequireVisitor,
        walk_after: Traversal,
        failure: Option<BundleError>,
    ) -> bool {
        match parsed {
            Ok(json) => failure is None && self.json_recorded(walk, json, after, walk_after),
            Err(message) => {
                &&& failure matches Some(BundleError::JsonFailure { key, message: told }) && key@
                    == walk.current() && told == message
                &&& after == *self
                &&& walk_after == walk
            },
        }
    }

    /// What becomes of the engine and the walk when the source of the current
    /// script has gone through the rewriter with `outcome`. A source that
    /// does not parse fails the build and changes nothing. A source in which
    /// the rewriter found fault fails the build with the first fault, after
    /// the module's key. Any other is recorded.
    pub open spec fn module_settled(
        &self,
        walk: Traversal,
        directory: bool,
        outcome: Result<Rewritten, String>,
        after: RequireVisitor,
        walk_after: Traversal,
        failure: Option<BundleError>,
    ) -> bool {
        match outcome {
            Err(message) => {
                &&& failure matches Some(BundleError::ParseFailure { key, message: told }) && key@
                    == walk.current() && told == message
                &&& after == *self
                &&& walk_after == walk
            },
            Ok(rewritten) => if rewritten.errors@.len() > 0 {
                &&& failure matches Some(BundleError::RewriteFailure(inner)) && inner.value@
                    == keyed(walk.current(), rewritten.errors@[0]@)
                &&& self.module_refused(walk.current(), rewritten, after)
                &&& walk_after == walk
            } else {
                failure is None && self.module_recorded(
                    walk,
                    directory,
                    rewritten,
                    after,
                    walk_after,
                )
            },
        }
    }

    /// Forgets what is remembered of the module `file`, so that the next
    /// build reads it again. The modules that import it are not touched.
    pub fn mark_file_change(&mut self, file: &str)
        ensures
            old(self).forgets(*final(self), file@),
            old(self).paired() ==> final(self).paired(),
    {
        let key = String::from_str(file);
        self.imports_memo.remove(&key);
        self.transformed_memo.remove(&key);
        self.all_json.remove(&key);
    }

    /// Begins a walk: it knows the entry module and has visited nothing. What
    /// the last walk gathered of its last module is dropped.
    pub fn begin(&mut self) -> (walk: Traversal)
        ensures
            views(walk.order@) == seq![old(self).entry_file@],
            walk.kinds@.len() == 0,
            walk.pending is None,
            final(self).cur_imports@.len() == 0,
            final(self).cur_errors@.len() == 0,
            final(self).same_memos(*old(self)),
            final(self).src_dir == old(self).src_dir,
            final(self).entry_file == old(self).entry_file,
            final(self).cur_file == old(self).cur_file,
            walk.orderly(),
            final(self).backs(walk),
            old(self).paired() ==> final(self).paired(),
    {
        self.cur_imports.clear();
        self.cur_errors.clear();
        let mut order: Vec<String> = Vec::new();
        order.push(self.entry_file.clone());
        proof {
            assert(views(order@) =~= seq![self.entry_file@]);
        }
        Traversal { order, kinds: Vec::new(), pending: None }
    }

    /// What the walk waits for: nothing when it is finished, the kind of its
    /// current module when none is pending, that module's source otherwise.
    pub fn request(&self, walk: &Traversal) -> (action: Action)
        ensures
            self.asks(*walk, action),
    {
        if walk.is_finished() {
            return Action::Done;
        }
        let key = &walk.order[walk.kinds.len()];
        match walk.pending {
            None => Action::Locate(key.clone()),
            Some(kind) => Action::Read(candidate_path(self.src_dir.as_str(), key.as_str(), kind)),
        }
    }

    /// Visits the walk's current module from memory, if the engine remembers
    /// it: a data module needs nothing more, and a script queues the imports
    /// remembered for it. Where nothing is remembered, or the walk is
    /// finished, nothing changes.
    pub fn visit_cached(&self, walk: &mut Traversal, kind: ModuleType) -> (hit: bool)
        ensures
            hit == (!old(walk).finished() && self.is_cached(old(walk).current(), kind)),
            !hit ==> *final(walk) == *old(walk),
            hit ==> old(walk).advanced(
                *final(walk),
                kind,
                self.cached_imports(old(walk).current(), kind),
            ),
    {
        if walk.is_finished() {
            return false;
        }
        let key = walk.order[walk.kinds.len()].clone();
        if kind == ModuleType::Json {
            if !self.all_json.contains_key(&key) {
                return false;
            }
        } else {
            match self.imports_memo.get(&key) {
                Some(imports) => {
                    enqueue_all(&mut walk.order, imports);
                },
                None => {
                    return false;
                },
            }
        }
        walk.kinds.push(kind);
        walk.pending = None;
        true
    }

    /// Visits the walk's current module as a data module that holds `json`:
    /// its body is remembered, and nothing is queued. Nothing changes where
    /// the walk is finished.
    pub fn record_json(&mut self, walk: &mut Traversal, json: &Json)
        ensures
            old(walk).finished() ==> *final(walk) == *old(walk) && *final(self) == *old(self),
            !old(walk).finished() ==> old(self).json_recorded(
                *old(walk),
                *json,
                *final(self),
                *final(walk),
            ),
    {
        if walk.is_finished() {
            return ;
        }
        let key = walk.order[walk.kinds.len()].clone();
        let body = json_module_body(json);
        self.all_json.insert(key, body);
        walk.kinds.push(ModuleType::Json);
        walk.pending = None;
    }

    /// Visits the walk's current module as a script that was rewritten to
    /// `rewritten`. Its references are resolved from its own key, or from the
    /// `init` inside it if it is a directory; the keys they name are
    /// remembered, each once and in order, beside the new source, and those
    /// that the walk has not met yet are queued. Nothing changes where the
    /// walk is finished.
    pub fn record_module(&mut self, walk: &mut Traversal, directory: bool, rewritten: Rewritten)
        ensures
            old(walk).finished() ==> *final(walk) == *old(walk) && *final(self) == *old(self),
            !old(walk).finished() ==> old(self).module_recorded(
                *old(walk),
                directory,
                rewritten,
                *final(self),
                *final(walk),
            ),
    {
        if walk.is_finished() {
            return ;
        }
        let key = walk.order[walk.kinds.len()].clone();
        let mut caller = key.clone();
        if directory {
            caller.append("/init");
        }
        let mut found: Vec<String> = Vec::new();
        let mut i: usize = 0;
        while i < rewritten.imports.len()
            invariant
                i <= rewritten.imports.len(),
                views(found@) == resolved_imports(caller@, views(rewritten.imports@).take(i as int)),
            decreases rewritten.imports.len() - i,
        {
            let resolved = parse_path(caller.as_str(), rewritten.imports[i].as_str());
            let ghost before = views(found@);
            found.push(resolved);
            proof {
                assert(views(found@) =~= before.push(resolved@));
                assert(views(rewritten.imports@).take(i + 1) =~= views(rewritten.imports@).take(
                    i as int,
                ).push(rewritten.imports@[i as int]@));
                assert(views(found@) =~= resolved_imports(
                    caller@,
                    views(rewritten.imports@).take(i + 1),
                ));
            }
            i = i + 1;
        }
        proof {
            assert(views(rewritten.imports@).take(i as int) == views(rewritten.imports@));
        }
        let mut rel_imports: Vec<String> = Vec::new();
        proof {
            assert(views(rel_imports@) =~= Seq::<Seq<char>>::empty());
        }
        enqueue_all(&mut rel_imports, &found);
        enqueue_all(&mut walk.order, &found);
        walk.kinds.push(if directory {
            ModuleType::Directory
        } else {
            ModuleType::Lua
        });
        walk.pending = None;
        self.transformed_memo.insert(key.clone(), rewritten.source);
        self.imports_memo.insert(key.clone(), rel_imports);
        self.cur_file = key;
        self.cur_imports = rewritten.imports;
        self.cur_errors = rewritten.errors;
    }
}

/// A visit keeps what the walk had: the modules visited before stay where
/// they were, the module visited is the one that was current, and a walk
/// without repetitions stays one.
pub proof fn lemma_advanced(
    walk: Traversal,
    after: Traversal,
    kind: ModuleType,
    imports: Seq<Seq<char>>,
)
    requires
        !walk.finished(),
        walk.advanced(after, kind, imports),
    ensures
        after.visited() == walk.visited() + 1,
        forall|i: int|
            0 <= i <= walk.visited() ==> after.order@[i]@ == walk.order@[i]@,
        forall|i: int| 0 <= i < walk.visited() ==> after.kinds@[i] == walk.kinds@[i],
        after.kinds@[walk.visited()] == kind,
        walk.orderly() ==> after.orderly(),
{
    lemma_enqueue(views(walk.order@), imports);
    let before = views(walk.order@);
    let grown = views(after.order@);
    assert forall|i: int| 0 <= i <= walk.visited() implies after.order@[i]@ == walk.order@[i]@ by {
        assert(grown.take(before.len() as int)[i] == before[i]);
        assert(grown[i] == after.order@[i]@);
        assert(before[i] == walk.order@[i]@);
    }
}

/// An engine that remembers the same bodies has a body for every module for
/// which the other has one.
pub proof fn lemma_same_bodies(engine: RequireVisitor, after: RequireVisitor, walk: Traversal)
    requires
        after.all_json@ == engine.all_json@,
        after.transformed_memo@ == engine.transformed_memo@,
        engine.backs(walk),
    ensures
        after.backs(walk),
{
    assert forall|i: int| 0 <= i < walk.visited() implies after.knows(walk, i) by {
        assert(engine.knows(walk, i));
    }
}

/// A visit from memory leaves the engine with a body for every module that
/// the walk has visited, if it had one for each before.
pub proof fn lemma_cached_step(
    engine: RequireVisitor,
    walk: Traversal,
    kind: ModuleType,
    after: Traversal,
)
    requires
        !walk.finished(),
        engine.is_cached(walk.current(), kind),
        walk.advanced(after, kind, engine.cached_imports(walk.current(), kind)),
        engine.paired(),
        engine.backs(walk),
    ensures
        engine.backs(after),
{
    lemma_advanced(walk, after, kind, engine.cached_imports(walk.current(), kind));
    assert forall|i: int| 0 <= i < after.visited() implies engine.knows(after, i) by {
        if i < walk.visited() {
            assert(engine.knows(walk, i));
        } else {
            assert(engine.transformed_memo@.dom().contains(walk.current()) <==> engine.imports_memo@.dom().contains(
                walk.current(),
            ));
        }
    }
}

/// Recording a data module leaves the engine with a body for every module
/// that the walk has visited, if it had one for each before.
pub proof fn lemma_json_step(
    engine: RequireVisitor,
    walk: Traversal,
    json: Json,
    after: RequireVisitor,
    walk_after: Traversal,
)
    requires
        !walk.finished(),
        engine.json_recorded(walk, json, after, walk_after),
    ensures
        engine.paired() ==> after.paired(),
        engine.backs(walk) ==> after.backs(walk_after),
        after.body_of(walk.current(), ModuleType::Json) == Some(json_module(json)),
{
    lemma_advanced(walk, walk_after, ModuleType::Json, Seq::<Seq<char>>::empty());
    if engine.backs(walk) {
        assert forall|i: int| 0 <= i < walk_after.visited() implies after.knows(walk_after, i) by {
            if i < walk.visited() {
                assert(engine.knows(walk, i));
                let key = walk.order@[i]@;
                if walk.kinds@[i] == ModuleType::Json && key != walk.current() {
                    assert(engine.all_json@.contains_key(key));
                    assert(after.all_json@.dom().contains(key));
                }
            }
        }
    }
}

/// Recording a script leaves the engine with a body for every module that
/// the walk has visited, if it had one for each before, and with imports and
/// source remembered side by side.
pub proof fn lemma_module_step(
    engine: RequireVisitor,
    walk: Traversal,
    directory: bool,
    rewritten: Rewritten,
    after: RequireVisitor,
    walk_after: Traversal,
)
    requires
        !walk.finished(),
        engine.module_recorded(walk, directory, rewritten, after, walk_after),
    ensures
        engine.paired() ==> after.paired(),
        engine.backs(walk) ==> after.backs(walk_after),
        after.body_of(
            walk.current(),
            if directory {
                ModuleType::Directory
            } else {
                ModuleType::Lua
            },
        ) == Some(rewritten.source@),
{
    let kind = if directory {
        ModuleType::Directory
    } else {
        ModuleType::Lua
    };
    let found = resolved_imports(caller_key(walk.current(), directory), views(rewritten.imports@));
    lemma_advanced(walk, walk_after, kind, found);
    if engine.backs(walk) {
        assert forall|i: int| 0 <= i < walk_after.visited() implies after.knows(walk_after, i) by {
            if i < walk.visited() {
                assert(engine.knows(walk, i));
                let key = walk.order@[i]@;
                if walk.kinds@[i] != ModuleType::Json && key != walk.current() {
                    assert(engine.transformed_memo@.contains_key(key));
                    assert(after.transformed_memo@.dom().contains(key));
                }
            }
        }
    }
}

/// Whether a module of this kind is a directory.
pub open spec fn is_directory(kind: ModuleType) -> bool {
    kind == ModuleType::Directory
}

/// Whether `parsed` is what reading `text` as JSON gives.
pub open spec fn json_read(text: Seq<char>, parsed: Result<Json, String>) -> bool {
    match parsed {
        Ok(json) => json_document(text) == Some(json),
        Err(_) => json_document(text) is None,
    }
}

impl RequireVisitor {
    /// How a step of a walk is answered: with the failure, if there is one,
    /// and else with what the walk asks next.
    pub open spec fn answers(
        &self,
        walk: Traversal,
        failure: Option<BundleError>,
        action: Action,
    ) -> bool {
        match failure {
            Some(error) => action == Action::Failed(error),
            None => self.asks(walk, action),
        }
    }

    /// Settles the walk's current module as a data module whose text was read
    /// as `parsed`. Nothing happens where the walk is finished.
    pub fn settle_json(&mut self, walk: &mut Traversal, parsed: Result<Json, String>) -> (failure:
        Option<BundleError>)
        ensures
            old(walk).finished() ==> failure is None && *final(walk) == *old(walk) && *final(self)
                == *old(self),
            !old(walk).finished() ==> old(self).json_settled(
                *old(walk),
                parsed,
                *final(self),
                *final(walk),
                failure,
            ),
    {
        if walk.is_finished() {
            return None;
        }
        match parsed {
            Ok(json) => {
                self.record_json(walk, &json);
                None
            },
            Err(message) => {
                let key = walk.order[walk.kinds.len()].clone();
                Some(BundleError::JsonFailure { key, message })
            },
        }
    }

    /// Settles the walk's current module as a script whose source went
    /// through the rewriter with `outcome`. Nothing happens where the walk is
    /// finished.
    pub fn settle_module(
        &mut self,
        walk: &mut Traversal,
        directory: bool,
        outcome: Result<Rewritten, String>,
    ) -> (failure: Option<BundleError>)
        ensures
            old(walk).finished() ==> failure is None && *final(walk) == *old(walk) && *final(self)
                == *old(self),
            !old(walk).finished() ==> old(self).module_settled(
                *old(walk),
                directory,
                outcome,
                *final(self),
                *final(walk),
                failure,
            ),
    {
        if walk.is_finished() {
            return None;
        }
        let key = walk.order[walk.kinds.len()].clone();
        match outcome {
            Err(message) => Some(BundleError::ParseFailure { key, message }),
            Ok(rewritten) => {
                if rewritten.errors.len() > 0 {
                    let value = keyed_message(key.as_str(), rewritten.errors[0].as_str());
                    self.cur_file = key;
                    self.cur_imports = rewritten.imports;
                    self.cur_errors = rewritten.errors;
                    Some(BundleError::RewriteFailure(RequireError::new(value)))
                } else {
                    self.record_module(walk, directory, rewritten);
                    None
                }
            },
        }
    }

    /// One step of a walk: takes what the caller has found out and says what
    /// is needed next.
    ///
    /// A module that was located is visited from memory where the engine
    /// remembers it, and no file is read for it; where it does not, the
    /// module's file is asked for. The source that arrives is parsed and
    /// recorded: a data module through the JSON parser, a script through the
    /// rewriter, with whatever the rewriter made of it. A module without a file, a file that cannot be read, a text
    /// that does not parse and a `require` that cannot be followed fail the
    /// build; what the engine remembered before stays. An answer to a
    /// question that was not asked changes nothing, and the question is
    /// asked again. A finished walk stays finished.
    pub fn traverse(&mut self, walk: &mut Traversal, event: Event) -> (action: Action)
        ensures
            old(walk).orderly() ==> final(walk).orderly(),
            old(self).paired() ==> final(self).paired(),
            old(self).paired() && old(self).backs(*old(walk)) ==> final(self).backs(*final(walk)),
            final(self).src_dir == old(self).src_dir,
            final(self).entry_file == old(self).entry_file,
            old(walk).finished() ==> action is Done && *final(walk) == *old(walk) && *final(self)
                == *old(self),
            !old(walk).finished() ==> match (old(walk).pending, event) {
                (None, Event::Located(kind)) => {
                    &&& *final(self) == *old(self)
                    &&& if old(self).is_cached(old(walk).current(), kind) {
                        old(walk).advanced(
                            *final(walk),
                            kind,
                            old(self).cached_imports(old(walk).current(), kind),
                        )
                    } else {
                        &&& final(walk).order == old(walk).order
                        &&& final(walk).kinds == old(walk).kinds
                        &&& final(walk).pending == Some(kind)
                    }
                    &&& final(self).asks(*final(walk), action)
                },
                (None, Event::Missing) => {
                    &&& *final(self) == *old(self)
                    &&& *final(walk) == *old(walk)
                    &&& action matches Action::Failed(BundleError::ModuleNotFound { key }) && key@
                        == old(walk).current()
                },
                (Some(kind), Event::Unreadable(message)) => {
                    &&& *final(self) == *old(self)
                    &&& *final(walk) == *old(walk)
                    &&& action matches Action::Failed(
                        BundleError::IoFailure { path, message: told },
                    ) && told == message && path@ == path_of(
                        old(self).src_dir@,
                        old(walk).current(),
                        kind,
                    )
                },
                (Some(kind), Event::Source(text)) => if kind == ModuleType::Json {
                    exists|parsed: Result<Json, String>, failure: Option<BundleError>|
                        {
                            &&& json_read(text@, parsed)
                            &&& #[trigger] old(self).json_settled(
                                *old(walk),
                                parsed,
                                *final(self),
                                *final(walk),
                                failure,
                            )
                            &&& final(self).answers(*final(walk), failure, action)
                        }
                } else {
                    exists|outcome: Result<Rewritten, String>, failure: Option<BundleError>|
                        {
                            &&& rewriting(text@, outcome)
                            &&& #[trigger] old(self).module_settled(
                                *old(walk),
                                is_directory(kind),
                                outcome,
                                *final(self),
                                *final(walk),
                                failure,
                            )
                            &&& final(self).answers(*final(walk), failure, action)
                        }
                },
                _ => {
                    &&& *final(self) == *old(self)
                    &&& *final(walk) == *old(walk)
                    &&& final(self).asks(*final(walk), action)
                },
            },
    {
        if walk.is_finished() {
            return Action::Done;
        }
        match event {
            Event::Located(kind) => {
                if walk.pending.is_none() {
                    if !self.visit_cached(walk, kind) {
                        walk.pending = Some(kind);
                        proof {
                            if self.backs(*old(walk)) {
                                assert forall|i: int| 0 <= i < walk.visited() implies self.knows(
                                    *walk,
                                    i,
                                ) by {
                                    assert(self.knows(*old(walk), i));
                                }
                            }
                        }
                    } else {
                        proof {
                            let imports = self.cached_imports(old(walk).current(), kind);
                            lemma_advanced(*old(walk), *walk, kind, imports);
                            if self.paired() && self.backs(*old(walk)) {
                                lemma_cached_step(*self, *old(walk), kind, *walk);
                                assert(self.backs(*walk));
                            }
                        }
                    }
                }
                self.request(walk)
            },
            Event::Missing => {
                if walk.pending.is_none() {
                    let key = walk.order[walk.kinds.len()].clone();
                    Action::Failed(BundleError::ModuleNotFound { key })
                } else {
                    self.request(walk)
                }
            },
            Event::Unreadable(message) => match walk.pending {
                Some(kind) => {
                    let key = &walk.order[walk.kinds.len()];
                    let path = candidate_path(self.src_dir.as_str(), key.as_str(), kind);
                    Action::Failed(BundleError::IoFailure { path, message })
                },
                None => self.request(walk),
            },
            Event::Source(text) => match walk.pending {
                Some(kind) => {
                    let failure = if kind == ModuleType::Json {
                        let parsed = parse_json(text.as_str());
                        let ghost read = parsed;
                        let failure = self.settle_json(walk, parsed);
                        proof {
                            assert(json_read(text@, read));
                            assert(old(self).json_settled(
                                *old(walk),
                                read,
                                *self,
                                *walk,
                                failure,
                            ));
                            match read {
                                Ok(json) => {
                                    lemma_advanced(
                                        *old(walk),
                                        *walk,
                                        ModuleType::Json,
                                        Seq::<Seq<char>>::empty(),
                                    );
                                    lemma_json_step(*old(self), *old(walk), json, *self, *walk);
                                },
                                Err(_) => {},
                            }
                        }
                        failure
                    } else {
                        let outcome = rewrite_source(text.as_str());
                        let ghost done = outcome;
                        let failure = self.settle_module(
                            walk,
                            kind == ModuleType::Directory,
                            outcome,
                        );
                        proof {
                            assert(old(self).module_settled(
                                *old(walk),
                                is_directory(kind),
                                done,
                                *self,
                                *walk,
                                failure,
                            ));
                            if done is Ok {
                                let rewritten = done->Ok_0;
                                if rewritten.errors@.len() > 0 {
                                    if old(self).backs(*old(walk)) {
                                        lemma_same_bodies(*old(self), *self, *walk);
                                    }
                                }
                                if rewritten.errors@.len() == 0 {
                                    lemma_advanced(
                                        *old(walk),
                                        *walk,
                                        if is_directory(kind) {
                                            ModuleType::Directory
                                        } else {
                                            ModuleType::Lua
                                        },
                                        resolved_imports(
                                            caller_key(old(walk).current(), is_directory(kind)),
                                            views(rewritten.imports@),
                                        ),
                                    );
                                    lemma_module_step(
                                        *old(self),
                                        *old(walk),
                                        is_directory(kind),
                                        rewritten,
                                        *self,
                                        *walk,
                                    );
                                }
                            }
                        }
                        failure
                    };
                    match failure {
                        Some(error) => Action::Failed(error),
                        None => self.request(walk),
                    }
                },
                None => self.request(walk),
            },
        }
    }
}

} // verus!
