pub use crate::config::{
    Config as MetaConfig, ConfigBuilder as MetaConfigBuilder,
    TryFromConfigBuilderError as MetaTryFromConfigBuilderError,
};
pub use crate::permutate::Permutate as MetaPermutate;
pub use crate::stats::Stats as MetaStats;
