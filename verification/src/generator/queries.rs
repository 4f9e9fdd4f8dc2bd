//! A generated query: its name, the embedding model it uses, the embeddings it computes
//! before its traversals run, whether it writes to the graph, and what it returns.

use vstd::prelude::*;
use super::return_values::ReturnValue;
use super::utils::{embed_name, EmbedData};

verus! {

/// A generated query.
pub struct Query {
    pub name: String,
    pub embedding_model_to_use: Option<String>,
    pub hoisted_embedding_calls: Vec<EmbedData>,
    pub is_mut: bool,
    pub return_values: Vec<ReturnValue>,
}

impl Query {
    /// Records an embedding to compute before the traversals, and returns the name of the
    /// variable that will hold it.
    pub fn add_hoisted_embed(&mut self, embed_data: EmbedData) -> (r: String)
        ensures
            r@ == embed_name(old(self).hoisted_embedding_calls@.len()),
            final(self).hoisted_embedding_calls@ == old(self).hoisted_embedding_calls@.push(
                embed_data,
            ),
            final(self).name == old(self).name,
            final(self).embedding_model_to_use == old(self).embedding_model_to_use,
            final(self).is_mut == old(self).is_mut,
            final(self).return_values == old(self).return_values,
    {
        let name = EmbedData::name_from_index(self.hoisted_embedding_calls.len());
        self.hoisted_embedding_calls.push(embed_data);
        name
    }
}

} // verus!
