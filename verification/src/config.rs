//! Configuration of a client.

use vstd::prelude::*;

use crate::error::Error;
use crate::translate::{DefaultTranslator, PathTranslator};

verus! {

/// What a configuration holds.
pub struct ConfigView<T> {
    /// The greatest length of root metadata that is downloaded.
    pub max_root_length: Option<usize>,
    /// The greatest length of timestamp metadata that is downloaded.
    pub max_timestamp_length: Option<usize>,
    /// The greatest depth to which delegations are followed.
    pub max_delegation_depth: u32,
    /// The translator between real and virtual paths.
    pub path_translator: T,
}

/// The defaults: a mebibyte of root metadata, 32 kibibytes of timestamp metadata, eight steps of
/// delegation, and paths that are their own virtual paths.
pub open spec fn default_config() -> ConfigView<DefaultTranslator> {
    ConfigView {
        max_root_length: Some(1_048_576),
        max_timestamp_length: Some(32_768),
        max_delegation_depth: 8,
        path_translator: DefaultTranslator,
    }
}

/// Configuration for a TUF `Client`.
///
/// # Defaults
///
/// The default values are considered reasonably safe. They may change; to be independent of them,
/// set your own with a `ConfigBuilder`.
#[derive(Debug)]
pub struct Config<T>
where
    T: PathTranslator,
{
    max_root_length: Option<usize>,
    max_timestamp_length: Option<usize>,
    max_delegation_depth: u32,
    path_translator: T,
}

impl<T: PathTranslator> View for Config<T> {
    type V = ConfigView<T>;

    closed spec fn view(&self) -> ConfigView<T> {
        ConfigView {
            max_root_length: self.max_root_length,
            max_timestamp_length: self.max_timestamp_length,
            max_delegation_depth: self.max_delegation_depth,
            path_translator: self.path_translator,
        }
    }
}

impl Config<DefaultTranslator> {
    /// Initializes a `ConfigBuilder` with the default values.
    pub fn build() -> (r: ConfigBuilder<DefaultTranslator>)
        ensures
            r@ == default_config(),
    {
        ConfigBuilder::default()
    }
}

impl<T> Config<T>
where
    T: PathTranslator,
{
    /// The optional maximum root metadata length.
    pub fn max_root_length(&self) -> (r: &Option<usize>)
        ensures
            *r == self@.max_root_length,
    {
        &self.max_root_length
    }

    /// The optional maximum timestamp metadata length.
    pub fn max_timestamp_length(&self) -> (r: &Option<usize>)
        ensures
            *r == self@.max_timestamp_length,
    {
        &self.max_timestamp_length
    }

    /// The maximum number of steps used when walking the delegation graph.
    pub fn max_delegation_depth(&self) -> (r: u32)
        ensures
            r == self@.max_delegation_depth,
    {
        self.max_delegation_depth
    }

    /// The `PathTranslator`.
    pub fn path_translator(&self) -> (r: &T)
        ensures
            *r == self@.path_translator,
    {
        &self.path_translator
    }
}

impl Default for Config<DefaultTranslator> {
    fn default() -> (r: Self)
        ensures
            r@ == default_config(),
    {
        Config {
            max_root_length: Some(1024 * 1024),
            max_timestamp_length: Some(32 * 1024),
            max_delegation_depth: 8,
            path_translator: DefaultTranslator::new(),
        }
    }
}

impl<T: PathTranslator + Clone> Clone for Config<T> {
    fn clone(&self) -> (r: Self)
        ensures
            r@.max_root_length == self@.max_root_length,
            r@.max_timestamp_length == self@.max_timestamp_length,
            r@.max_delegation_depth == self@.max_delegation_depth,
            cloned(self@.path_translator, r@.path_translator),
    {
        Config {
            max_root_length: self.max_root_length,
            max_timestamp_length: self.max_timestamp_length,
            max_delegation_depth: self.max_delegation_depth,
            path_translator: self.path_translator.clone(),
        }
    }
}

/// Helper for building and validating a TUF client `Config`.
#[derive(Debug, PartialEq)]
pub struct ConfigBuilder<T>
where
    T: PathTranslator,
{
    max_root_length: Option<usize>,
    max_timestamp_length: Option<usize>,
    max_delegation_depth: u32,
    path_translator: T,
}

impl<T: PathTranslator> View for ConfigBuilder<T> {
    type V = ConfigView<T>;

    closed spec fn view(&self) -> ConfigView<T> {
        ConfigView {
            max_root_length: self.max_root_length,
            max_timestamp_length: self.max_timestamp_length,
            max_delegation_depth: self.max_delegation_depth,
            path_translator: self.path_translator,
        }
    }
}

impl<T> ConfigBuilder<T>
where
    T: PathTranslator,
{
    /// Validates this builder and returns the `Config`. Every combination of values is valid.
    pub fn finish(self) -> (r: Result<Config<T>, Error>)
        ensures
            r matches Ok(config) && config@ == self@,
    {
        Ok(
            Config {
                max_root_length: self.max_root_length,
                max_timestamp_length: self.max_timestamp_length,
                max_delegation_depth: self.max_delegation_depth,
                path_translator: self.path_translator,
            },
        )
    }

    /// Sets the optional maximum download length for root metadata.
    pub fn max_root_length(self, max: Option<usize>) -> (r: Self)
        ensures
            r@ == (ConfigView { max_root_length: max, ..self@ }),
    {
        ConfigBuilder { max_root_length: max, ..self }
    }

    /// Sets the optional maximum download length for timestamp metadata.
    pub fn max_timestamp_length(self, max: Option<usize>) -> (r: Self)
        ensures
            r@ == (ConfigView { max_timestamp_length: max, ..self@ }),
    {
        ConfigBuilder { max_timestamp_length: max, ..self }
    }

    /// Sets the maximum number of steps used when walking the delegation graph.
    pub fn max_delegation_depth(self, max: u32) -> (r: Self)
        ensures
            r@ == (ConfigView { max_delegation_depth: max, ..self@ }),
    {
        ConfigBuilder { max_delegation_depth: max, ..self }
    }

    /// Sets the `PathTranslator`.
    pub fn path_translator<TT>(self, path_translator: TT) -> (r: ConfigBuilder<TT>)
    where
        TT: PathTranslator,
        ensures
            r@ == (ConfigView {
                max_root_length: self@.max_root_length,
                max_timestamp_length: self@.max_timestamp_length,
                max_delegation_depth: self@.max_delegation_depth,
                path_translator,
            }),
    {
        ConfigBuilder {
            max_root_length: self.max_root_length,
            max_timestamp_length: self.max_timestamp_length,
            max_delegation_depth: self.max_delegation_depth,
            path_translator,
        }
    }
}

impl Default for ConfigBuilder<DefaultTranslator> {
    fn default() -> (r: ConfigBuilder<DefaultTranslator>)
        ensures
            r@ == default_config(),
    {
        let cfg = Config::default();
        ConfigBuilder {
            max_root_length: cfg.max_root_length,
            max_timestamp_length: cfg.max_timestamp_length,
            max_delegation_depth: cfg.max_delegation_depth,
            path_translator: cfg.path_translator,
        }
    }
}

} // verus!
