use vstd::prelude::*;

verus! {

/// Why an embedding could not be generated.
#[derive(Debug)]
pub enum EmbeddingError {
    /// The producer was used before a model was loaded into it.
    NotInitialized,
    /// The model failed, or returned a number of vectors other than the
    /// number of texts; nothing of the batch is returned.
    Inference(String),
}

/// How a batch's result follows from what the model returned for `count`
/// texts: all of its vectors when there is one per text, else an inference
/// failure (carrying the model's own message when it failed).
pub open spec fn batch_follows<V>(
    count: nat,
    out: Result<Vec<V>, String>,
    r: Result<Vec<V>, EmbeddingError>,
) -> bool {
    match out {
        Ok(vs) => if vs@.len() == count {
            r matches Ok(ws) && ws@ == vs@
        } else {
            r matches Err(EmbeddingError::Inference(_))
        },
        Err(m) => r matches Err(EmbeddingError::Inference(msg)) && msg == m,
    }
}

/// How a single embedding follows from what the model returned for one
/// text: its only vector, else an inference failure.
pub open spec fn single_follows<V>(out: Result<Vec<V>, String>, r: Result<V, EmbeddingError>) -> bool {
    match out {
        Ok(vs) => if vs@.len() == 1 {
            r matches Ok(v) && v == vs@[0]
        } else {
            r matches Err(EmbeddingError::Inference(_))
        },
        Err(m) => r matches Err(EmbeddingError::Inference(msg)) && msg == m,
    }
}

/// Owner of the embedding model: empty until a model is loaded into it.
/// Every generation goes through it, so a caller that guards it with a lock
/// serialises inference.
pub struct EmbeddingService<M> {
    model: Option<M>,
}

impl<M> EmbeddingService<M> {
    /// The loaded model, if any.
    pub closed spec fn model_view(&self) -> Option<M> {
        self.model
    }

    /// A service with no model loaded.
    pub fn new() -> (r: Self)
        ensures
            r.model_view() is None,
    {
        EmbeddingService { model: None }
    }

    /// Loads the model; generation may follow.
    pub fn initialize(&mut self, model: M)
        ensures
            final(self).model_view() == Some(model),
    {
        self.model = Some(model);
    }

    /// Whether a model is loaded.
    pub fn is_initialized(&self) -> (r: bool)
        ensures
            r == self.model_view() is Some,
    {
        self.model.is_some()
    }

    /// One embedding per text, in the texts' order, computed by `infer` on
    /// the loaded model. Before initialization this fails with
    /// `NotInitialized`; an empty batch succeeds with no vectors and no call
    /// of the model; otherwise the model's vectors are returned only when
    /// there is exactly one per text, and the batch fails as a whole.
    pub fn embed_batch<V, F>(&self, texts: Vec<String>, infer: F) -> (r: Result<Vec<V>, EmbeddingError>)
        where
            F: Fn(&M, Vec<String>) -> Result<Vec<V>, String>,
        requires
            forall|m: &M, t: Vec<String>| #[trigger] infer.requires((m, t)),
        ensures
            self.model_view() is None ==> r matches Err(EmbeddingError::NotInitialized),
            self.model_view() is Some && texts@.len() == 0 ==> (r matches Ok(vs) && vs@.len() == 0),
            self.model_view() is Some && texts@.len() > 0 ==> exists|out: Result<Vec<V>, String>|
                #[trigger] infer.ensures((&self.model_view()->Some_0, texts), out)
                    && batch_follows(texts@.len(), out, r),
            r matches Ok(vs) ==> vs@.len() == texts@.len(),
    {
        match &self.model {
            None => Err(EmbeddingError::NotInitialized),
            Some(model) => {
                let count = texts.len();
                if count == 0 {
                    return Ok(Vec::new());
                }
                let ghost handed = texts;
                let out = infer(model, texts);
                assert(infer.ensures((&self.model_view()->Some_0, handed), out));
                match out {
                    Ok(vs) => {
                        if vs.len() == count {
                            Ok(vs)
                        } else {
                            Err(EmbeddingError::Inference(String::from_str(
                                "the model returned a number of embeddings other than the number of texts",
                            )))
                        }
                    },
                    Err(m) => Err(EmbeddingError::Inference(m)),
                }
            },
        }
    }

    /// The embedding of one text: a batch of that text alone.
    pub fn embed_one<V, F>(&self, text: String, infer: F) -> (r: Result<V, EmbeddingError>)
        where
            F: Fn(&M, Vec<String>) -> Result<Vec<V>, String>,
        requires
            forall|m: &M, t: Vec<String>| #[trigger] infer.requires((m, t)),
        ensures
            self.model_view() is None ==> r matches Err(EmbeddingError::NotInitialized),
            self.model_view() is Some ==> exists|texts: Vec<String>, out: Result<Vec<V>, String>|
                texts@ == seq![text] && #[trigger] infer.ensures((&self.model_view()->Some_0, texts), out)
                    && single_follows(out, r),
    {
        let texts = vec![text];
        let ghost handed = texts;
        let batch = self.embed_batch(texts, infer);
        match batch {
            Ok(mut vs) => {
                proof {
                    if self.model_view() is Some {
                        let out = choose|out: Result<Vec<V>, String>|
                            #[trigger] infer.ensures((&self.model_view()->Some_0, handed), out)
                                && batch_follows(1, out, Ok::<Vec<V>, EmbeddingError>(vs));
                        assert(handed@ == seq![text]);
                    }
                }
                let v = vs.remove(0);
                Ok(v)
            },
            Err(e) => Err(e),
        }
    }
}

} // verus!
