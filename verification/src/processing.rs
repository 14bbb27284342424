//! What processing a parse tree does to the modules.

use crate::context::Session;
use crate::error::IdlFault;
use crate::node::Tree;
use crate::rule::Rule;
use crate::sources::File;
use vstd::prelude::*;

verus! {

impl Session {
    /// The name in a declarator of a `typedef` is declared in the module at `scope`. A
    /// declarator that cannot be read declares nothing.
    pub open spec fn declared(
        self,
        scope: Seq<Seq<char>>,
        declarator: Tree,
        type_spec: crate::ast::TypeSpec,
    ) -> Session {
        match declarator.declarator(type_spec) {
            Ok((key, type_dcl)) => self.with_type(scope, key, type_dcl),
            Err(_) => self,
        }
    }

    /// The names in all declarators of a `typedef` are declared, in order.
    pub open spec fn all_declared(
        self,
        scope: Seq<Seq<char>>,
        declarators: Seq<Tree>,
        type_spec: crate::ast::TypeSpec,
    ) -> Session
        decreases declarators.len(),
    {
        if declarators.len() == 0 {
            self
        } else {
            self.all_declared(scope, declarators.drop_last(), type_spec).declared(
                scope,
                declarators.last(),
                type_spec,
            )
        }
    }

    /// What processing a parse tree in the module at `scope` leads to, and whether it fails.
    ///
    /// A declaration is added to the module; one that cannot be read fails and changes
    /// nothing. A module is entered, whatever fails inside. A file that is included and was
    /// not read before is processed in place, up to the first tree that fails; one that is not
    /// listed is wanted. `depth` bounds how deep files that were not read before can include
    /// each other.
    pub open spec fn processed(
        self,
        files: Seq<(Seq<char>, File)>,
        depth: nat,
        scope: Seq<Seq<char>>,
        tree: Tree,
    ) -> (Session, Result<(), IdlFault>)
        decreases depth, tree,
    {
        match tree.rule {
            Rule::ModuleDcl => {
                let inner = scope.push(tree.parts[0].text);
                let after = if tree.parts.len() >= 1 {
                    self.with_module(inner).each_processed(
                        files,
                        depth,
                        inner,
                        tree.later_parts(),
                    )
                } else {
                    self
                };
                (after, Ok(()))
            },
            Rule::StructDef => match tree.struct_def() {
                Ok(type_dcl) => (self.with_type(scope, tree.parts[0].text, type_dcl), Ok(())),
                Err(fault) => (self, Err(IdlFault::ParserError(fault))),
            },
            Rule::UnionDef => match tree.union_def() {
                Ok((key, type_dcl)) => (self.with_type(scope, key, type_dcl), Ok(())),
                Err(fault) => (self, Err(IdlFault::ParserError(fault))),
            },
            Rule::TypeDeclarator => match tree.parts[0].type_spec() {
                Ok(type_spec) => (
                    self.all_declared(scope, tree.parts[1].parts, type_spec),
                    Ok(()),
                ),
                Err(fault) => (self, Err(IdlFault::ParserError(fault))),
            },
            Rule::EnumDcl => match tree.enum_dcl() {
                Ok(type_dcl) => (self.with_type(scope, tree.parts[0].text, type_dcl), Ok(())),
                Err(fault) => (self, Err(IdlFault::ParserError(fault))),
            },
            Rule::ConstDcl => match tree.const_dcl() {
                Ok(const_dcl) => (self.with_const(scope, const_dcl.id, const_dcl), Ok(())),
                Err(fault) => (self, Err(IdlFault::ParserError(fault))),
            },
            Rule::IncludeDirective => if tree.parts.len() == 0 {
                (self, Ok(()))
            } else {
                let name = tree.parts[0].text;
                match crate::sources::file_named(files, name) {
                    None => (self.with_wanted(name), Err(IdlFault::FileNotFound(name))),
                    Some(file) => if self.included.contains(file.full_path) {
                        (self, Ok(()))
                    } else {
                        let entered = self.with_file(file.full_path);
                        match file.content {
                            Err(fault) => (entered, Err(fault)),
                            Ok(trees) => if depth == 0 {
                                (entered, Ok(()))
                            } else {
                                entered.processed_until_failure(
                                    files,
                                    (depth - 1) as nat,
                                    scope,
                                    trees,
                                )
                            },
                        }
                    },
                }
            },
            _ => (self.each_processed(files, depth, scope, tree.parts), Ok(())),
        }
    }

    /// What processing a list of parse trees leads to, whichever of them fail.
    pub open spec fn each_processed(
        self,
        files: Seq<(Seq<char>, File)>,
        depth: nat,
        scope: Seq<Seq<char>>,
        trees: Seq<Tree>,
    ) -> Session
        decreases depth, trees,
    {
        if trees.len() == 0 {
            self
        } else {
            self.each_processed(files, depth, scope, trees.drop_last()).processed(
                files,
                depth,
                scope,
                trees.last(),
            ).0
        }
    }

    /// What processing a list of parse trees up to the first that fails leads to, and
    /// whether one fails.
    pub open spec fn processed_until_failure(
        self,
        files: Seq<(Seq<char>, File)>,
        depth: nat,
        scope: Seq<Seq<char>>,
        trees: Seq<Tree>,
    ) -> (Session, Result<(), IdlFault>)
        decreases depth, trees,
    {
        if trees.len() == 0 {
            (self, Ok(()))
        } else {
            match self.processed_until_failure(files, depth, scope, trees.drop_last()) {
                (after, Err(fault)) => (after, Err(fault)),
                (after, Ok(())) => after.processed(files, depth, scope, trees.last()),
            }
        }
    }
}

/// How many of the files were not read.
pub open spec fn unread(files: Seq<(Seq<char>, File)>, included: Set<Seq<char>>) -> nat
    decreases files.len(),
{
    if files.len() == 0 {
        0
    } else if included.contains(files.last().1.full_path) {
        unread(files.drop_last(), included)
    } else {
        unread(files.drop_last(), included) + 1
    }
}

/// The more was read, the fewer files remain.
pub proof fn lemma_unread_subset(
    files: Seq<(Seq<char>, File)>,
    fewer: Set<Seq<char>>,
    more: Set<Seq<char>>,
)
    requires
        fewer.subset_of(more),
    ensures
        unread(files, more) <= unread(files, fewer) <= files.len(),
    decreases files.len(),
{
    if files.len() > 0 {
        lemma_unread_subset(files.drop_last(), fewer, more);
    }
}

/// Reading one of the files that were not read leaves fewer of them.
pub proof fn lemma_unread_insert(
    files: Seq<(Seq<char>, File)>,
    included: Set<Seq<char>>,
    k: int,
)
    requires
        0 <= k < files.len(),
        !included.contains(files[k].1.full_path),
    ensures
        unread(files, included.insert(files[k].1.full_path)) < unread(files, included),
    decreases files.len(),
{
    let path = files[k].1.full_path;
    if k == files.len() - 1 {
        lemma_unread_subset(files.drop_last(), included, included.insert(path));
    } else {
        assert(files.drop_last()[k] == files[k]);
        lemma_unread_insert(files.drop_last(), included, k);
    }
}

/// Once a tree of a list failed, the trees after it are not processed.
pub proof fn lemma_failure_ends(
    session: Session,
    files: Seq<(Seq<char>, File)>,
    depth: nat,
    scope: Seq<Seq<char>>,
    trees: Seq<Tree>,
    n: int,
)
    requires
        0 <= n <= trees.len(),
        session.processed_until_failure(files, depth, scope, trees.take(n)).1 is Err,
    ensures
        session.processed_until_failure(files, depth, scope, trees)
            == session.processed_until_failure(files, depth, scope, trees.take(n)),
    decreases trees.len() - n,
{
    if n == trees.len() {
        assert(trees.take(n) =~= trees);
    } else {
        assert(trees.take(n + 1).drop_last() =~= trees.take(n));
        lemma_failure_ends(session, files, depth, scope, trees, n + 1);
    }
}

}
