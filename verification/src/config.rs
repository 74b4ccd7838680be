//! The settings of one run.
use crate::embedding::{output_buffer_size, output_capacity};
use vstd::prelude::*;

verus! {

/// The settings of a run as the contracts see them.
pub struct ConfigView {
    pub model_name: Seq<char>,
    pub collection_name: Seq<char>,
    pub vector_size: nat,
    pub max_context_length: Option<nat>,
    pub start_vector_id: nat,
}

/// Why a set of values makes no configuration.
#[derive(Debug, Clone, Copy, PartialEq, Eq, Structural)]
pub enum ConfigError {
    /// The vector size is zero.
    ZeroVectorSize,
    /// A maximum context length is given, and it is zero.
    ZeroContextLength,
    /// The vector size is so large that the buffer for the engine's output
    /// would be beyond what the machine can address.
    VectorSizeTooLarge,
}

/// The settings of a run: the model, the collection that the points go to,
/// the length of every embedding vector, the longest text that is embedded
/// (in characters; none means no limit), and the identifier of the first
/// point.
pub struct PipelineConfig {
    model_name: String,
    collection_name: String,
    vector_size: usize,
    max_context_length: Option<usize>,
    start_vector_id: u64,
}

impl View for PipelineConfig {
    type V = ConfigView;

    closed spec fn view(&self) -> ConfigView {
        ConfigView {
            model_name: self.model_name@,
            collection_name: self.collection_name@,
            vector_size: self.vector_size as nat,
            max_context_length: match self.max_context_length {
                Some(max) => Some(max as nat),
                None => None,
            },
            start_vector_id: self.start_vector_id as nat,
        }
    }
}

impl ConfigView {
    /// A vector size and a maximum context length are positive, and every
    /// number is one that the machine can hold; so is the size of the
    /// buffer that takes the engine's output.
    pub open spec fn valid(self) -> bool {
        &&& self.vector_size > 0
        &&& self.max_context_length != Some(0nat)
        &&& output_capacity(self.vector_size) <= usize::MAX
        &&& self.start_vector_id <= u64::MAX
        &&& self.max_context_length matches Some(max) ==> max <= usize::MAX
    }
}

impl PipelineConfig {
    #[verifier::type_invariant]
    spec fn inv(self) -> bool {
        self@.valid()
    }

    /// Makes a configuration. The vector size must be positive, and so must
    /// the maximum context length where one is given; the vector size must
    /// leave the output buffer within what the machine can address. Without
    /// a start identifier the first point gets 0.
    pub fn new(
        model_name: String,
        collection_name: String,
        vector_size: usize,
        max_context_length: Option<usize>,
        start_vector_id: Option<u64>,
    ) -> (r: Result<PipelineConfig, ConfigError>)
        ensures
            match r {
                Ok(config) => {
                    &&& config@.valid()
                    &&& config@.model_name == model_name@
                    &&& config@.collection_name == collection_name@
                    &&& config@.vector_size == vector_size
                    &&& config@.max_context_length == match max_context_length {
                        Some(max) => Some(max as nat),
                        None => None,
                    }
                    &&& config@.start_vector_id == match start_vector_id {
                        Some(id) => id as nat,
                        None => 0nat,
                    }
                },
                Err(ConfigError::ZeroVectorSize) => vector_size == 0,
                Err(ConfigError::VectorSizeTooLarge) => output_capacity(vector_size as nat)
                    > usize::MAX,
                Err(ConfigError::ZeroContextLength) => {
                    &&& vector_size > 0
                    &&& output_capacity(vector_size as nat) <= usize::MAX
                    &&& max_context_length == Some(0usize)
                },
            },
    {
        if vector_size == 0 {
            return Err(ConfigError::ZeroVectorSize);
        }
        if output_buffer_size(vector_size).is_none() {
            return Err(ConfigError::VectorSizeTooLarge);
        }
        match max_context_length {
            Some(max) => {
                if max == 0 {
                    return Err(ConfigError::ZeroContextLength);
                }
            },
            None => {},
        }
        let start_vector_id = match start_vector_id {
            Some(id) => id,
            None => 0,
        };
        Ok(
            PipelineConfig {
                model_name,
                collection_name,
                vector_size,
                max_context_length,
                start_vector_id,
            },
        )
    }

    /// The model that embeds the sections.
    pub fn model_name(&self) -> (r: &str)
        ensures
            r@ == self@.model_name,
    {
        self.model_name.as_str()
    }

    /// The collection that the points go to.
    pub fn collection_name(&self) -> (r: &str)
        ensures
            r@ == self@.collection_name,
    {
        self.collection_name.as_str()
    }

    /// The length of every embedding vector; it is positive.
    pub fn vector_size(&self) -> (r: usize)
        ensures
            r == self@.vector_size,
            r > 0,
            self@.valid(),
    {
        proof {
            use_type_invariant(self);
        }
        self.vector_size
    }

    /// The longest text that is embedded, in characters, if there is a limit;
    /// a limit is positive.
    pub fn max_context_length(&self) -> (r: Option<usize>)
        ensures
            match r {
                Some(max) => self@.max_context_length == Some(max as nat) && max > 0,
                None => self@.max_context_length is None,
            },
            self@.valid(),
    {
        proof {
            use_type_invariant(self);
        }
        self.max_context_length
    }

    /// The identifier of the first point.
    pub fn start_vector_id(&self) -> (r: u64)
        ensures
            r == self@.start_vector_id,
            self@.valid(),
    {
        proof {
            use_type_invariant(self);
        }
        self.start_vector_id
    }
}

} // verus!
