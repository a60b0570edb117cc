use vstd::prelude::*;

verus! {

/// Where notices go, and what describes the reporting process.
#[derive(Debug, Clone, PartialEq, Eq)]
pub struct Config {
    pub host: String,
    pub project_id: String,
    pub project_key: String,
    pub environment: Option<String>,
    pub app_os: Option<String>,
    pub app_hostname: Option<String>,
    pub app_language: Option<String>,
    pub app_version: Option<String>,
    pub app_root_directory: Option<String>,
}

/// The collector used when no host is given.
pub open spec fn default_host() -> Seq<char> {
    "https://api.airbrake.io"@
}

/// The project id and key used when none is given.
pub open spec fn default_project() -> Seq<char> {
    "0"@
}

/// `{host}/api/v3/projects/{project_id}/notices?key={project_key}`.
pub open spec fn endpoint_spec(host: Seq<char>, id: Seq<char>, key: Seq<char>) -> Seq<char> {
    host + "/api/v3/projects/"@ + id + "/notices?key="@ + key
}

impl Config {
    /// A configuration from the settings found: a missing host, project id or
    /// project key takes its default; the application's language and version
    /// stay unset.
    pub fn from_settings(
        host: Option<String>,
        project_id: Option<String>,
        project_key: Option<String>,
        environment: Option<String>,
        app_os: Option<String>,
        app_hostname: Option<String>,
        app_root_directory: Option<String>,
    ) -> (r: Config)
        ensures
            r.host@ == (match host {
                Some(h) => h@,
                None => default_host(),
            }),
            r.project_id@ == (match project_id {
                Some(p) => p@,
                None => default_project(),
            }),
            r.project_key@ == (match project_key {
                Some(k) => k@,
                None => default_project(),
            }),
            r.environment == environment,
            r.app_os == app_os,
            r.app_hostname == app_hostname,
            r.app_language is None,
            r.app_version is None,
            r.app_root_directory == app_root_directory,
    {
        let host = match host {
            Some(h) => h,
            None => String::from_str("https://api.airbrake.io"),
        };
        let project_id = match project_id {
            Some(p) => p,
            None => String::from_str("0"),
        };
        let project_key = match project_key {
            Some(k) => k,
            None => String::from_str("0"),
        };
        Config {
            host,
            project_id,
            project_key,
            environment,
            app_os,
            app_hostname,
            app_language: None,
            app_version: None,
            app_root_directory,
        }
    }

    /// The URL that notices are posted to.
    pub fn endpoint(&self) -> (r: String)
        ensures
            r@ == endpoint_spec(self.host@, self.project_id@, self.project_key@),
    {
        let mut r = self.host.clone();
        r.append("/api/v3/projects/");
        r.append(self.project_id.as_str());
        r.append("/notices?key=");
        r.append(self.project_key.as_str());
        r
    }
}

} // verus!
