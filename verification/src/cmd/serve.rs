//! The options of `serve` and how they override the configuration.
use vstd::prelude::*;

use crate::config::SiteConfig;

verus! {

/// What the user asked `serve` for.
#[derive(Debug, Clone, Default)]
pub struct ServeOptions {
    pub config_path: Option<String>,
    pub port: Option<u16>,
    pub host: Option<String>,
}

impl ServeOptions {
    /// Applies the port and host given on the command line to the
    /// configuration; everything else is kept.
    pub fn apply(&self, config: &mut SiteConfig)
        ensures
            final(config).dev.port == match self.port {
                Some(p) => p,
                None => old(config).dev.port,
            },
            final(config).dev.host@ == match self.host {
                Some(h) => h@,
                None => old(config).dev.host@,
            },
            final(config).dev.live_reload == old(config).dev.live_reload,
            final(config).title == old(config).title,
            final(config).base_url == old(config).base_url,
            final(config).content_dir == old(config).content_dir,
            final(config).output_dir == old(config).output_dir,
            final(config).template_dir == old(config).template_dir,
            final(config).static_dir == old(config).static_dir,
            final(config).theme == old(config).theme,
    {
        if let Some(port) = self.port {
            config.dev.port = port;
        }
        if let Some(host) = &self.host {
            config.dev.host = host.clone();
        }
    }
}

} // verus!
