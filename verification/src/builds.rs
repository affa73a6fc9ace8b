//! What building a project's applications takes: one build task per application.
use vstd::prelude::*;
use crate::config::{MainConfig, AppConfig, opt_view, str_or};
use crate::deployable::naming::{image_name, image_name_spec};
use crate::error::DeployError;
use crate::text::{decimal, u64_to_decimal};

verus! {

/// Where and for which platform a project's images are built, and the
/// container engine `D` that builds them.
pub struct BuildHandle<D> {
    pub docker: D,
    pub abs_path: String,
    pub remote_platform: Option<String>,
}

impl<D> BuildHandle<D> {
    pub fn new(docker: D, abs_path: String, remote_platform: Option<String>) -> (r: Result<Self, DeployError>)
        ensures
            r is Ok,
            r.unwrap().docker == docker,
            r.unwrap().abs_path@ == abs_path@,
            opt_view(r.unwrap().remote_platform) == opt_view(remote_platform),
    {
        Ok(BuildHandle { docker: docker, abs_path, remote_platform })
    }
}

/// The build of one application's image.
#[derive(Debug)]
pub struct BuildTask {
    pub app_name: String,
    pub docker_file_name: String,
    /// The build context, relative to the project's directory.
    pub context: String,
    pub tag: String,
    pub platform: String,
}

/// A build task as character sequences.
pub struct BuildTaskView {
    pub app_name: Seq<char>,
    pub docker_file_name: Seq<char>,
    pub context: Seq<char>,
    pub tag: Seq<char>,
    pub platform: Seq<char>,
}

impl View for BuildTask {
    type V = BuildTaskView;

    open spec fn view(&self) -> BuildTaskView {
        BuildTaskView {
            app_name: self.app_name@,
            docker_file_name: self.docker_file_name@,
            context: self.context@,
            tag: self.tag@,
            platform: self.platform@,
        }
    }
}

/// `<project>-<name>-image:<now>`: the tag of an application's image built at time `now`.
pub open spec fn build_tag_spec(project: Seq<char>, name: Seq<char>, now: u64) -> Seq<char> {
    image_name_spec(project, name) + ":"@ + decimal(now as nat)
}

/// The task that builds application `name` of `project` at time `now`.
pub open spec fn build_task_spec(
    project: Seq<char>,
    name: Seq<char>,
    app: AppConfig,
    remote_platform: Option<String>,
    now: u64,
) -> BuildTaskView {
    BuildTaskView {
        app_name: name,
        docker_file_name: str_or(app.dockerfile, "Dockerfile"@),
        context: str_or(app.context, "./"@),
        tag: build_tag_spec(project, name, now),
        platform: str_or(remote_platform, "linux/amd64"@),
    }
}

fn string_or(o: &Option<String>, default: &str) -> (r: String)
    ensures
        r@ == str_or(*o, default@),
{
    match o {
        Some(s) => s.clone(),
        None => default.to_owned(),
    }
}

/// One build task per application of the project, in the order of the
/// configuration, each tagged with the time `now` (seconds since the epoch).
pub fn get_build_tasks(config: MainConfig, remote_platform: Option<String>, now: u64) -> (r: Vec<BuildTask>)
    ensures
        match config.app {
            Some(apps) => r.len() == apps.len() && forall|i: int|
                0 <= i < apps.len() ==> (#[trigger] r@[i])@ == build_task_spec(
                    config.project@,
                    apps@[i].0@,
                    apps@[i].1,
                    remote_platform,
                    now,
                ),
            None => r.len() == 0,
        },
{
    let mut build_tasks: Vec<BuildTask> = Vec::new();
    if let Some(apps) = config.app.as_ref() {
        let mut i: usize = 0;
        while i < apps.len()
            invariant
                config.app == Some(*apps),
                i <= apps.len(),
                build_tasks.len() == i,
                forall|j: int|
                    0 <= j < i ==> (#[trigger] build_tasks@[j])@ == build_task_spec(
                        config.project@,
                        apps@[j].0@,
                        apps@[j].1,
                        remote_platform,
                        now,
                    ),
            decreases apps.len() - i,
        {
            let app_name = &apps[i].0;
            let app_config = &apps[i].1;
            let mut tag = image_name(&config.project, app_name);
            tag.append(":");
            let secs = u64_to_decimal(now);
            tag.append(secs.as_str());
            build_tasks.push(BuildTask {
                app_name: app_name.clone(),
                docker_file_name: string_or(&app_config.dockerfile, "Dockerfile"),
                context: string_or(&app_config.context, "./"),
                tag,
                platform: string_or(&remote_platform, "linux/amd64"),
            });
            i = i + 1;
        }
    }
    build_tasks
}

} // verus!
