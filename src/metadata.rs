//! The records collected for routes and schema types across a crate.
use vstd::prelude::*;
use crate::text::{owned, text_eq};

verus! {

/// What is recorded of a route handler.
pub struct RouteMetadata {
    /// HTTP method.
    pub method: String,
    /// Route path.
    pub path: String,
    pub function_name: String,
    /// The module that holds the handler.
    pub module: String,
    pub file_path: String,
    /// The handler's signature, as written.
    pub signature: String,
}

/// What is recorded of a schema type.
pub struct StructMetadata {
    pub name: String,
    /// The module that holds the type.
    pub module: String,
    pub file_path: String,
    /// The type's definition, as written.
    pub definition: String,
}

/// The records of a crate, gathered before the document is assembled.
pub struct CollectedMetadata {
    /// The folder that routes were collected from.
    pub folder_name: String,
    pub routes: Vec<RouteMetadata>,
    pub structs: Vec<StructMetadata>,
}

impl CollectedMetadata {
    /// An empty collection for the given folder.
    pub fn new(folder_name: String) -> (r: CollectedMetadata)
        ensures
            r.folder_name@ == folder_name@,
            r.routes@.len() == 0,
            r.structs@.len() == 0,
    {
        CollectedMetadata { folder_name, routes: Vec::new(), structs: Vec::new() }
    }

    /// Records a route.
    pub fn add_route(&mut self, route: RouteMetadata)
        ensures
            final(self).folder_name == old(self).folder_name,
            final(self).routes@ == old(self).routes@.push(route),
            final(self).structs@ == old(self).structs@,
    {
        self.routes.push(route);
    }

    /// Records a schema type.
    pub fn add_struct(&mut self, s: StructMetadata)
        ensures
            final(self).folder_name == old(self).folder_name,
            final(self).routes@ == old(self).routes@,
            final(self).structs@ == old(self).structs@.push(s),
    {
        self.structs.push(s);
    }

    /// The first recorded schema type named `name`.
    pub fn find_struct(&self, name: &str) -> (r: Option<&StructMetadata>)
        ensures
            match r {
                Some(m) => exists|k: int| {
                    &&& 0 <= k < self.structs.len()
                    &&& self.structs@[k] == *m
                    &&& m.name@ == name@
                    &&& forall|j: int| 0 <= j < k ==> (#[trigger] self.structs@[j]).name@ != name@
                },
                None => forall|k: int| 0 <= k < self.structs.len() ==> (#[trigger] self.structs@[k]).name@ != name@,
            },
    {
        let mut i: usize = 0;
        while i < self.structs.len()
            invariant
                i <= self.structs.len(),
                forall|j: int| 0 <= j < i ==> (#[trigger] self.structs@[j]).name@ != name@,
            decreases self.structs.len() - i,
        {
            if text_eq(self.structs[i].name.as_str(), name) {
                return Some(&self.structs[i]);
            }
            i = i + 1;
        }
        None
    }
}

impl Default for CollectedMetadata {
    /// An empty collection for the `routes` folder.
    fn default() -> (r: CollectedMetadata)
        ensures
            r.folder_name@ == "routes"@,
            r.routes@.len() == 0,
            r.structs@.len() == 0,
    {
        CollectedMetadata::new(owned("routes"))
    }
}

} // verus!
