//! The client handle and its configuration.

pub mod auth;
pub mod http;

pub use auth::AuthInfo;
pub use http::{Device, HttpConfig, ResponseFormat};
pub use crate::models::forum::FORUM_ICON_PATH;

use crate::api::request::{ForumApi, MessageApi, NotificationApi, PostApi, TopicApi, UserApi};
use crate::cache::traits::CacheStorage;
use crate::error::{Error, Result};
use crate::client::http::seconds;
use core::time::Duration;
use std::sync::Arc;
use vstd::prelude::*;

verus! {

/// A shared handle on a cache storage of any kind.
pub struct CacheHandle(pub Arc<dyn CacheStorage>);

/// Builder for creating a client.
pub struct NGAClientBuilder {
    pub auth: Option<AuthInfo>,
    pub http_config: HttpConfig,
    pub cache: Option<CacheHandle>,
}

/// The credentials of an optional auth pair.
pub open spec fn credentials(auth: Option<AuthInfo>) -> Option<(Seq<char>, Seq<char>)> {
    match auth {
        Some(a) => Some((a.token@, a.uid@)),
        None => None,
    }
}

impl NGAClientBuilder {
    /// Create a new builder: no credentials, the default configuration, no
    /// cache.
    pub fn new() -> (r: Self)
        ensures
            r.auth is None,
            r.http_config.base_url@ == crate::client::http::DEFAULT_BASE_URL@,
            r.http_config.connect_timeout == seconds(5),
            r.http_config.read_timeout == seconds(20),
            r.http_config.device == Device::Apple,
            r.http_config.custom_user_agent is None,
            r.cache is None,
    {
        NGAClientBuilder { auth: None, http_config: HttpConfig::default(), cache: None }
    }

    /// Set authentication.
    pub fn auth(self, token: &str, uid: &str) -> (r: Self)
        ensures
            credentials(r.auth) == Some((token@, uid@)),
            r.http_config == self.http_config,
            r.cache == self.cache,
    {
        NGAClientBuilder {
            auth: Some(AuthInfo::new(token, uid)),
            http_config: self.http_config,
            cache: self.cache,
        }
    }

    /// Set authentication from AuthInfo.
    pub fn with_auth(self, auth: AuthInfo) -> (r: Self)
        ensures
            r.auth == Some(auth),
            r.http_config == self.http_config,
            r.cache == self.cache,
    {
        NGAClientBuilder { auth: Some(auth), http_config: self.http_config, cache: self.cache }
    }

    /// Set base URL.
    pub fn base_url(self, url: &str) -> (r: Self)
        ensures
            r.http_config.base_url@ == url@,
            r.http_config.connect_timeout == self.http_config.connect_timeout,
            r.http_config.read_timeout == self.http_config.read_timeout,
            r.http_config.device == self.http_config.device,
            r.http_config.custom_user_agent == self.http_config.custom_user_agent,
            r.auth == self.auth,
            r.cache == self.cache,
    {
        let mut b = self;
        b.http_config.base_url = url.to_owned();
        b
    }

    /// Set device type.
    pub fn device(self, device: Device) -> (r: Self)
        ensures
            r.http_config.device == device,
            r.http_config.base_url == self.http_config.base_url,
            r.http_config.connect_timeout == self.http_config.connect_timeout,
            r.http_config.read_timeout == self.http_config.read_timeout,
            r.http_config.custom_user_agent == self.http_config.custom_user_agent,
            r.auth == self.auth,
            r.cache == self.cache,
    {
        let mut b = self;
        b.http_config.device = device;
        b
    }

    /// Set custom user agent.
    pub fn user_agent(self, ua: &str) -> (r: Self)
        ensures
            r.http_config.custom_user_agent is Some,
            r.http_config.custom_user_agent->0@ == ua@,
            r.http_config.base_url == self.http_config.base_url,
            r.http_config.connect_timeout == self.http_config.connect_timeout,
            r.http_config.read_timeout == self.http_config.read_timeout,
            r.http_config.device == self.http_config.device,
            r.auth == self.auth,
            r.cache == self.cache,
    {
        let mut b = self;
        b.http_config.custom_user_agent = Some(ua.to_owned());
        b
    }

    /// Set connection timeout.
    pub fn connect_timeout(self, timeout: Duration) -> (r: Self)
        ensures
            r.http_config.connect_timeout == timeout,
            r.http_config.base_url == self.http_config.base_url,
            r.http_config.read_timeout == self.http_config.read_timeout,
            r.http_config.device == self.http_config.device,
            r.http_config.custom_user_agent == self.http_config.custom_user_agent,
            r.auth == self.auth,
            r.cache == self.cache,
    {
        let mut b = self;
        b.http_config.connect_timeout = timeout;
        b
    }

    /// Set read timeout.
    pub fn read_timeout(self, timeout: Duration) -> (r: Self)
        ensures
            r.http_config.read_timeout == timeout,
            r.http_config.base_url == self.http_config.base_url,
            r.http_config.connect_timeout == self.http_config.connect_timeout,
            r.http_config.device == self.http_config.device,
            r.http_config.custom_user_agent == self.http_config.custom_user_agent,
            r.auth == self.auth,
            r.cache == self.cache,
    {
        let mut b = self;
        b.http_config.read_timeout = timeout;
        b
    }

    /// Set cache storage.
    pub fn cache(self, storage: CacheHandle) -> (r: Self)
        ensures
            r.cache == Some(storage),
            r.http_config == self.http_config,
            r.auth == self.auth,
    {
        NGAClientBuilder { auth: self.auth, http_config: self.http_config, cache: Some(storage) }
    }

    /// Build the client: an immutable handle on what the builder holds.
    pub fn build(self) -> (r: Result<NGAClient>)
        ensures
            r is Ok,
            r->Ok_0.inner.auth == self.auth,
            r->Ok_0.inner.config == self.http_config,
            r->Ok_0.inner.cache == self.cache,
    {
        Ok(
            NGAClient {
                inner: Arc::new(
                    NGAClientInner { config: self.http_config, auth: self.auth, cache: self.cache },
                ),
            },
        )
    }
}

impl Default for NGAClientBuilder {
    fn default() -> (r: Self)
        ensures
            r.auth is None,
            r.cache is None,
    {
        NGAClientBuilder::new()
    }
}

/// Internal client state.
pub struct NGAClientInner {
    pub config: HttpConfig,
    pub auth: Option<AuthInfo>,
    /// Cache storage for API responses.
    pub cache: Option<CacheHandle>,
}

impl NGAClientInner {
    /// Get auth info or error.
    pub fn require_auth(&self) -> (r: Result<&AuthInfo>)
        ensures
            match r {
                Ok(a) => self.auth == Some(*a),
                Err(e) => self.auth is None && e is AuthRequired,
            },
    {
        match &self.auth {
            Some(a) => Ok(a),
            None => Err(Error::AuthRequired),
        }
    }

    /// Get auth as tuple or error.
    pub fn auth_tuple(&self) -> (r: Result<(&str, &str)>)
        ensures
            match r {
                Ok((token, uid)) => credentials(self.auth) == Some((token@, uid@)),
                Err(e) => self.auth is None && e is AuthRequired,
            },
    {
        match &self.auth {
            Some(a) => Ok((a.token.as_str(), a.uid.as_str())),
            None => Err(Error::AuthRequired),
        }
    }

    /// Get optional auth as tuple.
    pub fn auth_tuple_opt(&self) -> (r: Option<(&str, &str)>)
        ensures
            match r {
                Some((token, uid)) => credentials(self.auth) == Some((token@, uid@)),
                None => self.auth is None,
            },
    {
        match &self.auth {
            Some(a) => Some((a.token.as_str(), a.uid.as_str())),
            None => None,
        }
    }
}

/// Client for interacting with the forum: an immutable handle, cheap to
/// clone and to share.
#[derive(Clone)]
pub struct NGAClient {
    pub inner: Arc<NGAClientInner>,
}

impl NGAClient {
    /// Create a new client builder: no credentials, the default
    /// configuration, no cache.
    pub fn builder() -> (r: NGAClientBuilder)
        ensures
            r.auth is None,
            r.http_config.base_url@ == crate::client::http::DEFAULT_BASE_URL@,
            r.http_config.connect_timeout == seconds(5),
            r.http_config.read_timeout == seconds(20),
            r.http_config.device == Device::Apple,
            r.http_config.custom_user_agent is None,
            r.cache is None,
    {
        NGAClientBuilder::new()
    }

    /// Get the forum API.
    pub fn forums(&self) -> ForumApi {
        ForumApi {  }
    }

    /// Get the topic API.
    pub fn topics(&self) -> TopicApi {
        TopicApi {  }
    }

    /// Get the post API.
    pub fn posts(&self) -> PostApi {
        PostApi {  }
    }

    /// Get the user API.
    pub fn users(&self) -> UserApi {
        UserApi {  }
    }

    /// Get the notification API.
    pub fn notifications(&self) -> NotificationApi {
        NotificationApi {  }
    }

    /// Get the message API.
    pub fn messages(&self) -> MessageApi {
        MessageApi {  }
    }

    /// Check if the client is authenticated.
    pub fn is_authenticated(&self) -> (r: bool)
        ensures
            r == self.inner.auth is Some,
    {
        self.inner.auth.is_some()
    }

    /// Get the current authentication info.
    pub fn auth_info(&self) -> (r: Option<&AuthInfo>)
        ensures
            match r {
                Some(a) => self.inner.auth == Some(*a),
                None => self.inner.auth is None,
            },
    {
        self.inner.auth.as_ref()
    }

    /// Get the current user ID if authenticated.
    pub fn current_uid(&self) -> (r: Option<&str>)
        ensures
            match r {
                Some(uid) => self.inner.auth is Some && uid@ == self.inner.auth->0.uid@,
                None => self.inner.auth is None,
            },
    {
        match &self.inner.auth {
            Some(a) => Some(a.uid.as_str()),
            None => None,
        }
    }
}

} // verus!
