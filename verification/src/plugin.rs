//! Plugins: a router of its own, with a name and what else describes it.

use vstd::prelude::*;
use vstd::string::*;
use crate::handler::Handler;
use crate::router::Router;
use crate::text::texts;

verus! {

/// A plugin.
pub struct Plugin {
    /// The plugin's name.
    pub name: String,
    /// The plugin's version.
    pub version: String,
    /// The plugin's authors.
    pub authors: Vec<String>,
    /// What the plugin is for.
    pub description: String,
    /// The plugin's router.
    pub router: Router,
}

impl Plugin {
    /// A builder with every field empty.
    pub fn builder() -> (builder: PluginBuilder)
        ensures
            builder.name@ == Seq::<char>::empty(),
            builder.version@ == Seq::<char>::empty(),
            builder.authors@ == Seq::<String>::empty(),
            builder.description@ == Seq::<char>::empty(),
    {
        PluginBuilder {
            name: String::new(),
            version: String::new(),
            authors: Vec::new(),
            description: String::new(),
        }
    }

    /// The plugin's name.
    pub fn name(&self) -> (name: &str)
        ensures
            name@ == self.name@,
    {
        self.name.as_str()
    }

    /// The plugin's version.
    pub fn version(&self) -> (version: &str)
        ensures
            version@ == self.version@,
    {
        self.version.as_str()
    }

    /// The plugin's authors.
    pub fn authors(&self) -> (authors: &Vec<String>)
        ensures
            *authors == self.authors,
    {
        &self.authors
    }

    /// What the plugin is for.
    pub fn description(&self) -> (description: &str)
        ensures
            description@ == self.description@,
    {
        self.description.as_str()
    }

    /// Attaches a new handler to the plugin's router, behind those that are
    /// there.
    pub fn handler(self, handler: Handler) -> (plugin: Plugin)
        ensures
            plugin.router.handlers@ == self.router.handlers@.push(handler),
            plugin.router.routers@ == self.router.routers@,
            plugin.router.middlewares == self.router.middlewares,
            plugin.name == self.name,
            plugin.version == self.version,
            plugin.authors == self.authors,
            plugin.description == self.description,
    {
        let mut plugin = self;
        plugin.router.handlers.push(handler);
        plugin
    }
}

/// Builds a plugin field by field.
pub struct PluginBuilder {
    /// The plugin's name.
    pub name: String,
    /// The plugin's version.
    pub version: String,
    /// The plugin's authors.
    pub authors: Vec<String>,
    /// What the plugin is for.
    pub description: String,
}

/// The texts of a list of string slices.
pub open spec fn slice_texts(list: Seq<&str>) -> Seq<Seq<char>> {
    Seq::new(list.len(), |i: int| list[i]@)
}

impl PluginBuilder {
    /// Sets the name.
    pub fn name(self, name: &str) -> (builder: PluginBuilder)
        ensures
            builder.name@ == name@,
            builder.version == self.version,
            builder.authors == self.authors,
            builder.description == self.description,
    {
        let mut builder = self;
        builder.name = String::from_str(name);
        builder
    }

    /// Sets the version.
    pub fn version(self, version: &str) -> (builder: PluginBuilder)
        ensures
            builder.version@ == version@,
            builder.name == self.name,
            builder.authors == self.authors,
            builder.description == self.description,
    {
        let mut builder = self;
        builder.version = String::from_str(version);
        builder
    }

    /// Adds one author, behind those that are there.
    pub fn author(self, author: &str) -> (builder: PluginBuilder)
        ensures
            texts(builder.authors@) == texts(self.authors@).push(author@),
            builder.name == self.name,
            builder.version == self.version,
            builder.description == self.description,
    {
        let mut builder = self;
        builder.authors.push(String::from_str(author));
        assert(texts(builder.authors@) =~= texts(self.authors@).push(author@));
        builder
    }

    /// Sets the authors: those given, in place of those that were there.
    pub fn authors(self, authors: &[&str]) -> (builder: PluginBuilder)
        ensures
            texts(builder.authors@) == slice_texts(authors@),
            builder.name == self.name,
            builder.version == self.version,
            builder.description == self.description,
    {
        let mut builder = self;
        let mut list: Vec<String> = Vec::new();
        let mut i: usize = 0;
        while i < authors.len()
            invariant
                i <= authors.len(),
                list.len() == i,
                forall|k: int| 0 <= k < i ==> (#[trigger] list@[k])@ == authors@[k]@,
            decreases authors.len() - i,
        {
            list.push(String::from_str(authors[i]));
            i = i + 1;
        }
        assert(texts(list@) =~= slice_texts(authors@));
        builder.authors = list;
        builder
    }

    /// Sets the description.
    pub fn description(self, description: &str) -> (builder: PluginBuilder)
        ensures
            builder.description@ == description@,
            builder.name == self.name,
            builder.version == self.version,
            builder.authors == self.authors,
    {
        let mut builder = self;
        builder.description = String::from_str(description);
        builder
    }

    /// The plugin that was described, with a router that holds nothing yet.
    pub fn build(self) -> (plugin: Plugin)
        ensures
            plugin.name == self.name,
            plugin.version == self.version,
            plugin.authors == self.authors,
            plugin.description == self.description,
            plugin.router.handlers@ == Seq::<Handler>::empty(),
            plugin.router.routers@ == Seq::<Router>::empty(),
            plugin.router.middlewares.before@.len() == 0,
            plugin.router.middlewares.after@.len() == 0,
    {
        Plugin {
            name: self.name,
            version: self.version,
            authors: self.authors,
            description: self.description,
            router: Router::new(),
        }
    }
}

impl Default for PluginBuilder {
    fn default() -> (builder: PluginBuilder)
        ensures
            builder.name@ == Seq::<char>::empty(),
            builder.version@ == Seq::<char>::empty(),
            builder.authors@ == Seq::<String>::empty(),
            builder.description@ == Seq::<char>::empty(),
    {
        Plugin::builder()
    }
}

} // verus!
