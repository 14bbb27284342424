//! Walking through parse trees and adding what they declare to the modules.

use crate::ast::IdlTypeSpec;
use crate::context::{Context, Scope};
use crate::error::{IdlError, IdlFault, ParserError};
use crate::node::Node;
use crate::rule::Rule;
use crate::sources::Sources;
use vstd::prelude::*;

verus! {

broadcast use crate::node::group_node_model;

/// The model of what processing returns.
pub open spec fn verdict(r: Result<(), IdlError>) -> Result<(), IdlFault> {
    match r {
        Ok(()) => Ok(()),
        Err(error) => Err(error@),
    }
}

impl<'i> Context<'i> {
    /// declarator = { array_declarator | simple_declarator }
    /// array_declarator = { identifier ~ fixed_array_size+ }
    /// simple_declarator = { identifier }
    ///
    /// Declares the name in a declarator of a `typedef` in the module at `scope`.
    pub fn process_declarator(
        &mut self,
        scope: &Scope,
        pair: &Node,
        type_spec: &IdlTypeSpec,
    ) -> (r: Result<(), ParserError>)
        requires
            old(self).wf(),
            pair@.wf(),
        ensures
            final(self)@ == old(self)@.declared(crate::text::texts(scope@), pair@, type_spec@),
            match r {
                Ok(()) => pair@.declarator(type_spec@) is Ok,
                Err(error) => pair@.declarator(type_spec@) == Err::<
                    (Seq<char>, crate::ast::TypeDcl),
                    _,
                >(error@),
            },
            final(self).wf(),
            final(self).included_files == old(self).included_files,
            final(self).config == old(self).config,
    {
        let (key, type_dcl) = self.read_declarator(pair, type_spec)?;
        self.add_type_dcl(scope, key, type_dcl);
        Ok(())
    }

    /// Declares the names in a list of declarators of a `typedef`, and passes over those that
    /// cannot be read.
    fn process_declarators(&mut self, scope: &Scope, list: &Node, type_spec: &IdlTypeSpec)
        requires
            old(self).wf(),
            list@.wf(),
        ensures
            final(self)@ == old(self)@.all_declared(
                crate::text::texts(scope@),
                list@.parts,
                type_spec@,
            ),
            final(self).wf(),
            final(self).included_files == old(self).included_files,
            final(self).config == old(self).config,
    {
        let ghost path = crate::text::texts(scope@);
        let ghost trees = list@.parts;
        let mut i: usize = 0;
        while i < list.parts.len()
            invariant
                i <= list.parts@.len(),
                list@.wf(),
                trees == list@.parts,
                path == crate::text::texts(scope@),
                self@ == old(self)@.all_declared(path, trees.take(i as int), type_spec@),
                self.wf(),
                self.included_files == old(self).included_files,
                self.config == old(self).config,
            decreases list.parts@.len() - i,
        {
            proof {
                assert(trees[i as int] == list.parts@[i as int]@);
                assert(trees.take(i + 1).drop_last() =~= trees.take(i as int));
            }
            let _ = self.process_declarator(scope, &list.parts[i], type_spec);
            i = i + 1;
        }
        assert(trees.take(i as int) =~= trees);
    }

    /// Creates the module at `scope` if it does not already exist.
    fn open_module(&mut self, scope: &Scope)
        requires
            old(self).wf(),
        ensures
            final(self)@ == old(self)@.with_module(crate::text::texts(scope@)),
            final(self).wf(),
            final(self).included_files == old(self).included_files,
            final(self).config == old(self).config,
    {
        proof {
            let path = crate::text::texts(scope@);
            crate::module::lemma_select_wf(self@.root, path);
            crate::module::lemma_replace_wf(self@.root, path, self@.root.select(path));
        }
        let _ = self.lookup_module(scope);
    }

    /// Processes a node in the module at `scope`. `depth` is at least the number of files that
    /// were not read.
    fn walk(
        &mut self,
        scope: &mut Scope,
        sources: &Sources,
        pair: &Node,
        Ghost(depth): Ghost<nat>,
    ) -> (r: Result<(), IdlError>)
        requires
            old(self).wf(),
            sources.wf(),
            pair@.wf(),
            pair@.processable(),
            crate::processing::unread(sources@, old(self)@.included) <= depth,
        ensures
            (final(self)@, verdict(r)) == old(self)@.processed(
                sources@,
                depth,
                crate::text::texts(old(scope)@),
                pair@,
            ),
            final(scope)@ == old(scope)@,
            final(self).wf(),
            old(self)@.included.subset_of(final(self)@.included),
            final(self).config == old(self).config,
        decreases depth, pair,
    {
        let ghost path = crate::text::texts(scope@);
        let ghost files = sources@;
        match pair.rule {
            // module_dcl = { "module" ~ identifier ~ "{" ~ definition* ~ "}" }
            Rule::ModuleDcl => {
                proof {
                    assert(pair@.parts[0] == pair.parts@[0]@);
                    assert(pair@.later_parts() =~= pair@.parts.skip(1));
                }
                scope.push(pair.parts[0].text.clone());
                proof {
                    assert(crate::text::texts(scope@) =~= path.push(pair@.parts[0].text));
                }
                self.open_module(scope);
                self.walk_each(scope, sources, &pair.parts, 1, Ghost(depth));
                let _ = scope.pop();
                assert(scope@ =~= old(scope)@);
                Ok(())
            },
            // struct_def = { "struct" ~ identifier ~ (":" ~ scoped_name)? ~ "{" ~ member* ~ "}" }
            Rule::StructDef => {
                assert(pair@.parts[0] == pair.parts@[0]@);
                match self.read_struct_def(pair) {
                    Ok(type_dcl) => {
                        self.add_type_dcl(scope, pair.parts[0].text.clone(), type_dcl);
                        Ok(())
                    },
                    Err(error) => Err(IdlError::ParserError(error)),
                }
            },
            // union_def = { "union" ~ identifier ~ "switch" ~ "(" ~ switch_type_spec ~ ")" ~ "{" ~ switch_body ~ "}" }
            Rule::UnionDef => {
                match self.read_union_def(pair) {
                    Ok((key, type_dcl)) => {
                        self.add_type_dcl(scope, key, type_dcl);
                        Ok(())
                    },
                    Err(error) => Err(IdlError::ParserError(error)),
                }
            },
            // type_declarator = { (template_type_spec | constr_type_dcl | simple_type_spec) ~ any_declarators }
            Rule::TypeDeclarator => {
                assert(pair@.parts[0] == pair.parts@[0]@);
                match self.read_type_spec(&pair.parts[0]) {
                    Ok(type_spec) => {
                        assert(pair@.parts[1] == pair.parts@[1]@);
                        self.process_declarators(scope, &pair.parts[1], &type_spec);
                        Ok(())
                    },
                    Err(error) => Err(IdlError::ParserError(error)),
                }
            },
            // enum_dcl = { "enum" ~ identifier ~ "{" ~ enumerator ~ ("," ~ enumerator)* ~ ","? ~ "}" }
            // enumerator = { identifier }
            Rule::EnumDcl => {
                assert(pair@.parts[0] == pair.parts@[0]@);
                match self.read_enum_dcl(pair) {
                    Ok(type_dcl) => {
                        self.add_type_dcl(scope, pair.parts[0].text.clone(), type_dcl);
                        Ok(())
                    },
                    Err(error) => Err(IdlError::ParserError(error)),
                }
            },
            // const_dcl = { "const" ~ const_type ~ identifier ~ "=" ~ const_expr }
            Rule::ConstDcl => {
                match self.read_const_dcl(pair) {
                    Ok(const_dcl) => {
                        self.add_const_dcl(scope, const_dcl.id.clone(), const_dcl);
                        Ok(())
                    },
                    Err(error) => Err(IdlError::ParserError(error)),
                }
            },
            // include_directive = !{ "#" ~ "include" ~ (("<" ~ path_spec ~ ">") | ("\"" ~ path_spec ~ "\"")) }
            Rule::IncludeDirective => {
                if pair.parts.len() == 0 {
                    return Ok(());
                }
                assert(pair@.parts[0] == pair.parts@[0]@);
                let name = pair.parts[0].text.as_str();
                let file = match sources.find(name) {
                    Some(file) => file,
                    None => {
                        self.want_file(name);
                        return Err(IdlError::FileNotFound(name.to_owned()));
                    },
                };
                let ghost k = crate::table::place(files, name@);
                proof {
                    crate::table::lemma_place(files, name@);
                    assert(files[k].1 == file@);
                }
                if !self.add_file(file.full_path.as_str()) {
                    assert(self@ =~= old(self)@);
                    return Ok(());
                }
                proof {
                    crate::processing::lemma_unread_insert(files, old(self)@.included, k);
                }
                match &file.content {
                    Ok(nodes) => self.walk_until_failure(
                        scope,
                        sources,
                        nodes,
                        Ghost((depth - 1) as nat),
                    ),
                    Err(error) => Err(error.clone()),
                }
            },
            // anything else
            _ => {
                assert(pair@.parts.skip(0) =~= pair@.parts);
                self.walk_each(scope, sources, &pair.parts, 0, Ghost(depth));
                Ok(())
            },
        }
    }

    /// Processes the nodes of a list from `from` on, and passes over those that fail.
    fn walk_each(
        &mut self,
        scope: &mut Scope,
        sources: &Sources,
        nodes: &Vec<Node>,
        from: usize,
        Ghost(depth): Ghost<nat>,
    )
        requires
            old(self).wf(),
            sources.wf(),
            from <= nodes@.len(),
            crate::tree::forest_wf(crate::node::forest_model(nodes@)),
            crate::tree::forest_processable(
                crate::node::forest_model(nodes@).skip(from as int),
            ),
            crate::processing::unread(sources@, old(self)@.included) <= depth,
        ensures
            final(self)@ == old(self)@.each_processed(
                sources@,
                depth,
                crate::text::texts(old(scope)@),
                crate::node::forest_model(nodes@).skip(from as int),
            ),
            final(scope)@ == old(scope)@,
            final(self).wf(),
            old(self)@.included.subset_of(final(self)@.included),
            final(self).config == old(self).config,
        decreases depth, nodes,
    {
        let ghost path = crate::text::texts(scope@);
        let ghost trees = crate::node::forest_model(nodes@).skip(from as int);
        let mut i: usize = from;
        while i < nodes.len()
            invariant
                from <= i <= nodes@.len(),
                sources.wf(),
                trees == crate::node::forest_model(nodes@).skip(from as int),
                crate::tree::forest_wf(crate::node::forest_model(nodes@)),
                crate::tree::forest_processable(trees),
                path == crate::text::texts(old(scope)@),
                scope@ == old(scope)@,
                self@ == old(self)@.each_processed(sources@, depth, path, trees.take(i - from)),
                self.wf(),
                crate::processing::unread(sources@, old(self)@.included) <= depth,
                old(self)@.included.subset_of(self@.included),
                self.config == old(self).config,
            decreases nodes@.len() - i,
        {
            proof {
                assert(trees[i - from] == nodes@[i as int]@);
                assert(crate::node::forest_model(nodes@)[i as int] == nodes@[i as int]@);
                assert(trees.take(i - from + 1).drop_last() =~= trees.take(i - from));
                crate::processing::lemma_unread_subset(
                    sources@,
                    old(self)@.included,
                    self@.included,
                );
            }
            let _ = self.walk(scope, sources, &nodes[i], Ghost(depth));
            i = i + 1;
        }
        assert(trees.take(i - from) =~= trees);
    }

    /// Processes the nodes of a list up to the first that fails.
    fn walk_until_failure(
        &mut self,
        scope: &mut Scope,
        sources: &Sources,
        nodes: &Vec<Node>,
        Ghost(depth): Ghost<nat>,
    ) -> (r: Result<(), IdlError>)
        requires
            old(self).wf(),
            sources.wf(),
            crate::tree::forest_wf(crate::node::forest_model(nodes@)),
            crate::tree::forest_processable(crate::node::forest_model(nodes@)),
            crate::processing::unread(sources@, old(self)@.included) <= depth,
        ensures
            (final(self)@, verdict(r)) == old(self)@.processed_until_failure(
                sources@,
                depth,
                crate::text::texts(old(scope)@),
                crate::node::forest_model(nodes@),
            ),
            final(scope)@ == old(scope)@,
            final(self).wf(),
            old(self)@.included.subset_of(final(self)@.included),
            final(self).config == old(self).config,
        decreases depth, nodes,
    {
        let ghost path = crate::text::texts(scope@);
        let ghost trees = crate::node::forest_model(nodes@);
        let mut i: usize = 0;
        while i < nodes.len()
            invariant
                i <= nodes@.len(),
                sources.wf(),
                trees == crate::node::forest_model(nodes@),
                crate::tree::forest_wf(trees),
                crate::tree::forest_processable(trees),
                path == crate::text::texts(old(scope)@),
                scope@ == old(scope)@,
                old(self)@.processed_until_failure(sources@, depth, path, trees.take(i as int))
                    == (self@, Ok::<(), IdlFault>(())),
                self.wf(),
                crate::processing::unread(sources@, old(self)@.included) <= depth,
                old(self)@.included.subset_of(self@.included),
                self.config == old(self).config,
            decreases nodes@.len() - i,
        {
            proof {
                assert(trees[i as int] == nodes@[i as int]@);
                assert(trees.take(i + 1).drop_last() =~= trees.take(i as int));
                crate::processing::lemma_unread_subset(
                    sources@,
                    old(self)@.included,
                    self@.included,
                );
            }
            match self.walk(scope, sources, &nodes[i], Ghost(depth)) {
                Ok(()) => {},
                Err(error) => {
                    proof {
                        crate::processing::lemma_failure_ends(
                            old(self)@,
                            sources@,
                            depth,
                            path,
                            trees,
                            i + 1,
                        );
                    }
                    return Err(error);
                },
            }
            i = i + 1;
        }
        assert(trees.take(i as int) =~= trees);
        Ok(())
    }

    /// Walk through a node and everything inside it, and create the associated objects in the
    /// module at `scope`.
    pub fn process(&mut self, scope: &mut Scope, sources: &Sources, pair: &Node) -> (r: Result<
        (),
        IdlError,
    >)
        requires
            old(self).wf(),
            sources.wf(),
            pair@.wf(),
            pair@.processable(),
        ensures
            (final(self)@, verdict(r)) == old(self)@.processed(
                sources@,
                sources@.len(),
                crate::text::texts(old(scope)@),
                pair@,
            ),
            final(scope)@ == old(scope)@,
            final(self).wf(),
            final(self).config == old(self).config,
    {
        proof {
            crate::processing::lemma_unread_subset(sources@, self@.included, self@.included);
        }
        self.walk(scope, sources, pair, Ghost(sources@.len()))
    }
}

}
