//! Locating the external tools: per-platform download links and the
//! ordered candidate paths where each CLI is looked for. The caller probes
//! the filesystem and reports which candidate paths exist and what a PATH
//! search found; selection among them is decided here, in candidate order.
//!
//! Candidate paths under a base directory are joined with a forward slash.

use vstd::prelude::*;

use crate::text::{chars_of, eq_chars, string_from_chars};

verus! {

broadcast use crate::text::lemma_vec_char_deep_view;

// ─── Installed-tool reporting ───────────────────────────────────────────────

/// One external tool's installation status.
#[derive(Debug, Clone)]
pub struct DependencyStatus {
    pub name: String,
    pub installed: bool,
    pub version: Option<String>,
    pub required: bool,
    pub install_url: String,
}

// ─── Download links ─────────────────────────────────────────────────────────

/// The download link for the deployment tool on a platform: one archive
/// per operating system, with a separate arm64 build on macOS and Linux.
pub open spec fn terraform_download_url_spec(os: Seq<char>, arch: Seq<char>) -> Seq<char> {
    if os == "windows"@ {
        "https://releases.hashicorp.com/terraform/1.9.8/terraform_1.9.8_windows_amd64.zip"@
    } else if os == "macos"@ {
        if arch == "aarch64"@ {
            "https://releases.hashicorp.com/terraform/1.9.8/terraform_1.9.8_darwin_arm64.zip"@
        } else {
            "https://releases.hashicorp.com/terraform/1.9.8/terraform_1.9.8_darwin_amd64.zip"@
        }
    } else {
        if arch == "aarch64"@ {
            "https://releases.hashicorp.com/terraform/1.9.8/terraform_1.9.8_linux_arm64.zip"@
        } else {
            "https://releases.hashicorp.com/terraform/1.9.8/terraform_1.9.8_linux_amd64.zip"@
        }
    }
}

/// The download link for the deployment tool, by operating system
/// (`windows`, `macos`, else Linux) and architecture.
pub fn get_terraform_download_url(os: &str, arch: &str) -> (r: &'static str)
    ensures
        r@ == terraform_download_url_spec(os@, arch@),
{
    let osv = chars_of(os);
    let archv = chars_of(arch);
    let arm = eq_chars(&archv, &chars_of("aarch64"));
    if eq_chars(&osv, &chars_of("windows")) {
        "https://releases.hashicorp.com/terraform/1.9.8/terraform_1.9.8_windows_amd64.zip"
    } else if eq_chars(&osv, &chars_of("macos")) {
        if arm {
            "https://releases.hashicorp.com/terraform/1.9.8/terraform_1.9.8_darwin_arm64.zip"
        } else {
            "https://releases.hashicorp.com/terraform/1.9.8/terraform_1.9.8_darwin_amd64.zip"
        }
    } else {
        if arm {
            "https://releases.hashicorp.com/terraform/1.9.8/terraform_1.9.8_linux_arm64.zip"
        } else {
            "https://releases.hashicorp.com/terraform/1.9.8/terraform_1.9.8_linux_amd64.zip"
        }
    }
}

// ─── Candidate selection ────────────────────────────────────────────────────

/// Whether a path is among the reported existing paths.
pub open spec fn path_exists(existing: Seq<Seq<char>>, p: Seq<char>) -> bool {
    exists|i: int| 0 <= i < existing.len() && existing[i] == p
}

/// The first candidate that exists, in candidate order.
pub open spec fn first_existing(cands: Seq<Seq<char>>, existing: Seq<Seq<char>>) -> Option<
    Seq<char>,
>
    decreases cands.len(),
{
    if cands.len() == 0 {
        None
    } else if path_exists(existing, cands[0]) {
        Some(cands[0])
    } else {
        first_existing(cands.drop_first(), existing)
    }
}

fn exists_in(existing: &Vec<String>, p: &String) -> (r: bool)
    ensures
        r == path_exists(existing.deep_view(), p@),
{
    let pv = chars_of(p.as_str());
    let mut i: usize = 0;
    while i < existing.len()
        invariant
            i <= existing.len(),
            pv@ == p@,
            forall|k: int| 0 <= k < i ==> existing.deep_view()[k] != p@,
        decreases existing.len() - i,
    {
        let ev = chars_of(existing[i].as_str());
        proof {
            assert(existing.deep_view()[i as int] == existing@[i as int]@);
        }
        if eq_chars(&ev, &pv) {
            return true;
        }
        i = i + 1;
    }
    false
}

/// The first candidate path that the caller reports as existing, else what
/// a PATH search found.
fn pick_path(cands: &Vec<String>, existing: &Vec<String>, which_result: Option<String>) -> (r:
    Option<String>)
    ensures
        r.deep_view() == match first_existing(cands.deep_view(), existing.deep_view()) {
            Some(p) => Some(p),
            None => which_result.deep_view(),
        },
{
    let ghost cdv = cands.deep_view();
    let mut i: usize = 0;
    proof {
        assert(cdv.skip(0) =~~= cdv);
    }
    while i < cands.len()
        invariant
            cdv == cands.deep_view(),
            cands@.len() == cdv.len(),
            i <= cands.len(),
            first_existing(cdv, existing.deep_view()) == first_existing(
                cdv.skip(i as int),
                existing.deep_view(),
            ),
        decreases cands.len() - i,
    {
        proof {
            assert(cdv[i as int] == cands@[i as int]@);
            assert(cdv.skip(i as int)[0] == cdv[i as int]);
            assert(cdv.skip(i as int).drop_first() =~~= cdv.skip(i + 1 as int));
        }
        if exists_in(existing, &cands[i]) {
            return Some(cands[i].clone());
        }
        i = i + 1;
    }
    proof {
        assert(cdv.skip(cdv.len() as int) =~~= Seq::<Seq<char>>::empty());
    }
    which_result
}

/// A base directory joined with a relative path.
pub open spec fn joined_path(base: Seq<char>, rel: Seq<char>) -> Seq<char> {
    base + "/"@ + rel
}

/// The candidate a base directory contributes, when one is known.
pub open spec fn under_base(base: Option<Seq<char>>, rel: Seq<char>) -> Seq<Seq<char>> {
    match base {
        Some(b) => seq![joined_path(b, rel)],
        None => Seq::empty(),
    }
}

fn push_under_base(cands: &mut Vec<String>, base: &Option<String>, rel: &str)
    ensures
        final(cands).deep_view() == old(cands).deep_view() + under_base(base.deep_view(), rel@),
{
    let ghost prev = cands.deep_view();
    match base {
        Some(b) => {
            let mut path: Vec<char> = chars_of(b.as_str());
            crate::text::extend_chars(&mut path, &chars_of("/"));
            crate::text::extend_chars(&mut path, &chars_of(rel));
            cands.push(string_from_chars(&path));
            proof {
                assert(cands.deep_view() =~~= prev + under_base(base.deep_view(), rel@));
            }
        },
        None => {
            proof {
                assert(cands.deep_view() =~~= prev + under_base(base.deep_view(), rel@));
            }
        },
    }
}

fn push_fixed(cands: &mut Vec<String>, path: &str)
    ensures
        final(cands).deep_view() == old(cands).deep_view().push(path@),
{
    let ghost prev = cands.deep_view();
    cands.push(String::from_str(path));
    proof {
        assert(cands.deep_view() =~~= prev.push(path@));
    }
}

// ─── Per-tool candidate lists ───────────────────────────────────────────────

/// Candidates for the data-plane CLI: a per-user install location, the
/// user's local bin, then the per-platform system locations.
pub open spec fn databricks_cli_candidates(
    windows: bool,
    home: Option<Seq<char>>,
    local_app_data: Option<Seq<char>>,
) -> Seq<Seq<char>> {
    under_base(local_app_data, "Programs/databricks/databricks.exe"@) + under_base(
        home,
        ".local/bin/databricks"@,
    ) + if windows {
        seq![
            "C:\\Program Files\\Databricks\\databricks.exe"@,
            "C:\\Program Files (x86)\\Databricks\\databricks.exe"@,
        ]
    } else {
        seq!["/usr/local/bin/databricks"@, "/opt/homebrew/bin/databricks"@, "/usr/bin/databricks"@]
    }
}

/// Find the data-plane CLI among the reported existing paths, else fall
/// back to the PATH search result.
pub fn find_databricks_cli_path(
    windows: bool,
    home: Option<String>,
    local_app_data: Option<String>,
    existing: &Vec<String>,
    which_result: Option<String>,
) -> (r: Option<String>)
    ensures
        r.deep_view() == match first_existing(
            databricks_cli_candidates(windows, home.deep_view(), local_app_data.deep_view()),
            existing.deep_view(),
        ) {
            Some(p) => Some(p),
            None => which_result.deep_view(),
        },
{
    let mut cands: Vec<String> = Vec::new();
    proof {
        assert(cands.deep_view() =~~= Seq::<Seq<char>>::empty());
    }
    push_under_base(&mut cands, &local_app_data, "Programs/databricks/databricks.exe");
    push_under_base(&mut cands, &home, ".local/bin/databricks");
    if windows {
        push_fixed(&mut cands, "C:\\Program Files\\Databricks\\databricks.exe");
        push_fixed(&mut cands, "C:\\Program Files (x86)\\Databricks\\databricks.exe");
    } else {
        push_fixed(&mut cands, "/usr/local/bin/databricks");
        push_fixed(&mut cands, "/opt/homebrew/bin/databricks");
        push_fixed(&mut cands, "/usr/bin/databricks");
    }
    proof {
        assert(cands.deep_view() =~~= databricks_cli_candidates(
            windows,
            home.deep_view(),
            local_app_data.deep_view(),
        ));
    }
    pick_path(&cands, existing, which_result)
}

/// Candidates for git: the per-platform system locations.
pub open spec fn git_candidates(windows: bool) -> Seq<Seq<char>> {
    if windows {
        seq![
            "C:\\Program Files\\Git\\cmd\\git.exe"@,
            "C:\\Program Files (x86)\\Git\\cmd\\git.exe"@,
            "C:\\Program Files\\Git\\bin\\git.exe"@,
        ]
    } else {
        seq!["/usr/bin/git"@, "/usr/local/bin/git"@, "/opt/homebrew/bin/git"@]
    }
}

/// Find git among the reported existing paths, else fall back to the PATH
/// search result.
pub fn find_git_path(windows: bool, existing: &Vec<String>, which_result: Option<String>) -> (r:
    Option<String>)
    ensures
        r.deep_view() == match first_existing(git_candidates(windows), existing.deep_view()) {
            Some(p) => Some(p),
            None => which_result.deep_view(),
        },
{
    let mut cands: Vec<String> = Vec::new();
    proof {
        assert(cands.deep_view() =~~= Seq::<Seq<char>>::empty());
    }
    if windows {
        push_fixed(&mut cands, "C:\\Program Files\\Git\\cmd\\git.exe");
        push_fixed(&mut cands, "C:\\Program Files (x86)\\Git\\cmd\\git.exe");
        push_fixed(&mut cands, "C:\\Program Files\\Git\\bin\\git.exe");
    } else {
        push_fixed(&mut cands, "/usr/bin/git");
        push_fixed(&mut cands, "/usr/local/bin/git");
        push_fixed(&mut cands, "/opt/homebrew/bin/git");
    }
    proof {
        assert(cands.deep_view() =~~= git_candidates(windows));
    }
    pick_path(&cands, existing, which_result)
}

/// Candidates for the deployment tool: this application's own install
/// directory first, then a per-user install location, then the
/// per-platform system locations.
pub open spec fn terraform_candidates(
    windows: bool,
    home: Option<Seq<char>>,
    local_app_data: Option<Seq<char>>,
) -> Seq<Seq<char>> {
    under_base(
        home,
        if windows {
            ".databricks-deployer/bin/terraform.exe"@
        } else {
            ".databricks-deployer/bin/terraform"@
        },
    ) + under_base(local_app_data, "Programs/Terraform/terraform.exe"@) + if windows {
        seq![
            "C:\\Program Files\\Terraform\\terraform.exe"@,
            "C:\\Program Files (x86)\\Terraform\\terraform.exe"@,
            "C:\\HashiCorp\\Terraform\\terraform.exe"@,
        ]
    } else {
        seq![
            "/usr/local/bin/terraform"@,
            "/opt/homebrew/bin/terraform"@,
            "/usr/bin/terraform"@,
            "/bin/terraform"@,
            "/opt/local/bin/terraform"@,
        ]
    }
}

/// The deployment tool's candidate paths, in probe order.
pub fn terraform_candidate_paths(
    windows: bool,
    home: &Option<String>,
    local_app_data: &Option<String>,
) -> (r: Vec<String>)
    ensures
        r.deep_view() == terraform_candidates(windows, home.deep_view(), local_app_data.deep_view()),
{
    let mut cands: Vec<String> = Vec::new();
    proof {
        assert(cands.deep_view() =~~= Seq::<Seq<char>>::empty());
    }
    if windows {
        push_under_base(&mut cands, home, ".databricks-deployer/bin/terraform.exe");
    } else {
        push_under_base(&mut cands, home, ".databricks-deployer/bin/terraform");
    }
    push_under_base(&mut cands, local_app_data, "Programs/Terraform/terraform.exe");
    if windows {
        push_fixed(&mut cands, "C:\\Program Files\\Terraform\\terraform.exe");
        push_fixed(&mut cands, "C:\\Program Files (x86)\\Terraform\\terraform.exe");
        push_fixed(&mut cands, "C:\\HashiCorp\\Terraform\\terraform.exe");
    } else {
        push_fixed(&mut cands, "/usr/local/bin/terraform");
        push_fixed(&mut cands, "/opt/homebrew/bin/terraform");
        push_fixed(&mut cands, "/usr/bin/terraform");
        push_fixed(&mut cands, "/bin/terraform");
        push_fixed(&mut cands, "/opt/local/bin/terraform");
    }
    proof {
        assert(cands.deep_view() =~~= terraform_candidates(
            windows,
            home.deep_view(),
            local_app_data.deep_view(),
        ));
    }
    cands
}

/// Find the deployment tool among the reported existing paths, else fall
/// back to the PATH search result.
pub fn find_terraform_path(
    windows: bool,
    home: Option<String>,
    local_app_data: Option<String>,
    existing: &Vec<String>,
    which_result: Option<String>,
) -> (r: Option<String>)
    ensures
        r.deep_view() == match first_existing(
            terraform_candidates(windows, home.deep_view(), local_app_data.deep_view()),
            existing.deep_view(),
        ) {
            Some(p) => Some(p),
            None => which_result.deep_view(),
        },
{
    let cands = terraform_candidate_paths(windows, &home, &local_app_data);
    pick_path(&cands, existing, which_result)
}

/// Candidates for the AWS CLI: the per-platform system locations.
pub open spec fn aws_cli_candidates(windows: bool) -> Seq<Seq<char>> {
    if windows {
        seq![
            "C:\\Program Files\\Amazon\\AWSCLIV2\\aws.exe"@,
            "C:\\Program Files (x86)\\Amazon\\AWSCLIV2\\aws.exe"@,
        ]
    } else {
        seq![
            "/usr/local/bin/aws"@,
            "/opt/homebrew/bin/aws"@,
            "/usr/bin/aws"@,
            "/bin/aws"@,
            "/opt/local/bin/aws"@,
            "/Library/Frameworks/Python.framework/Versions/Current/bin/aws"@,
        ]
    }
}

/// Find the AWS CLI among the reported existing paths, else fall back to
/// the PATH search result.
pub fn find_aws_cli_path(windows: bool, existing: &Vec<String>, which_result: Option<String>) -> (r:
    Option<String>)
    ensures
        r.deep_view() == match first_existing(aws_cli_candidates(windows), existing.deep_view()) {
            Some(p) => Some(p),
            None => which_result.deep_view(),
        },
{
    let mut cands: Vec<String> = Vec::new();
    proof {
        assert(cands.deep_view() =~~= Seq::<Seq<char>>::empty());
    }
    if windows {
        push_fixed(&mut cands, "C:\\Program Files\\Amazon\\AWSCLIV2\\aws.exe");
        push_fixed(&mut cands, "C:\\Program Files (x86)\\Amazon\\AWSCLIV2\\aws.exe");
    } else {
        push_fixed(&mut cands, "/usr/local/bin/aws");
        push_fixed(&mut cands, "/opt/homebrew/bin/aws");
        push_fixed(&mut cands, "/usr/bin/aws");
        push_fixed(&mut cands, "/bin/aws");
        push_fixed(&mut cands, "/opt/local/bin/aws");
        push_fixed(&mut cands, "/Library/Frameworks/Python.framework/Versions/Current/bin/aws");
    }
    proof {
        assert(cands.deep_view() =~~= aws_cli_candidates(windows));
    }
    pick_path(&cands, existing, which_result)
}

/// Candidates for the Azure CLI: the per-platform system locations.
pub open spec fn azure_cli_candidates(windows: bool) -> Seq<Seq<char>> {
    if windows {
        seq![
            "C:\\Program Files\\Microsoft SDKs\\Azure\\CLI2\\wbin\\az.cmd"@,
            "C:\\Program Files (x86)\\Microsoft SDKs\\Azure\\CLI2\\wbin\\az.cmd"@,
        ]
    } else {
        seq![
            "/usr/local/bin/az"@,
            "/opt/homebrew/bin/az"@,
            "/usr/bin/az"@,
            "/bin/az"@,
            "/opt/local/bin/az"@,
        ]
    }
}

/// Find the Azure CLI among the reported existing paths, else fall back to
/// the PATH search result.
pub fn find_azure_cli_path(
    windows: bool,
    existing: &Vec<String>,
    which_result: Option<String>,
) -> (r: Option<String>)
    ensures
        r.deep_view() == match first_existing(azure_cli_candidates(windows), existing.deep_view()) {
            Some(p) => Some(p),
            None => which_result.deep_view(),
        },
{
    let mut cands: Vec<String> = Vec::new();
    proof {
        assert(cands.deep_view() =~~= Seq::<Seq<char>>::empty());
    }
    if windows {
        push_fixed(&mut cands, "C:\\Program Files\\Microsoft SDKs\\Azure\\CLI2\\wbin\\az.cmd");
        push_fixed(
            &mut cands,
            "C:\\Program Files (x86)\\Microsoft SDKs\\Azure\\CLI2\\wbin\\az.cmd",
        );
    } else {
        push_fixed(&mut cands, "/usr/local/bin/az");
        push_fixed(&mut cands, "/opt/homebrew/bin/az");
        push_fixed(&mut cands, "/usr/bin/az");
        push_fixed(&mut cands, "/bin/az");
        push_fixed(&mut cands, "/opt/local/bin/az");
    }
    proof {
        assert(cands.deep_view() =~~= azure_cli_candidates(windows));
    }
    pick_path(&cands, existing, which_result)
}

/// Candidates for the GCP CLI: two per-user install locations, then the
/// per-platform system locations.
pub open spec fn gcloud_cli_candidates(windows: bool, home: Option<Seq<char>>) -> Seq<Seq<char>> {
    under_base(home, "google-cloud-sdk/bin/gcloud"@) + under_base(
        home,
        "AppData/Local/Google/Cloud SDK/google-cloud-sdk/bin/gcloud.cmd"@,
    ) + if windows {
        seq![
            "C:\\Program Files\\Google\\Cloud SDK\\google-cloud-sdk\\bin\\gcloud.cmd"@,
            "C:\\Program Files (x86)\\Google\\Cloud SDK\\google-cloud-sdk\\bin\\gcloud.cmd"@,
        ]
    } else {
        seq![
            "/usr/local/bin/gcloud"@,
            "/opt/homebrew/bin/gcloud"@,
            "/usr/bin/gcloud"@,
            "/bin/gcloud"@,
            "/opt/local/bin/gcloud"@,
        ]
    }
}

/// Find the GCP CLI among the reported existing paths, else fall back to
/// the PATH search result.
pub fn find_gcloud_cli_path(
    windows: bool,
    home: Option<String>,
    existing: &Vec<String>,
    which_result: Option<String>,
) -> (r: Option<String>)
    ensures
        r.deep_view() == match first_existing(
            gcloud_cli_candidates(windows, home.deep_view()),
            existing.deep_view(),
        ) {
            Some(p) => Some(p),
            None => which_result.deep_view(),
        },
{
    let mut cands: Vec<String> = Vec::new();
    proof {
        assert(cands.deep_view() =~~= Seq::<Seq<char>>::empty());
    }
    push_under_base(&mut cands, &home, "google-cloud-sdk/bin/gcloud");
    push_under_base(&mut cands, &home, "AppData/Local/Google/Cloud SDK/google-cloud-sdk/bin/gcloud.cmd");
    if windows {
        push_fixed(&mut cands, "C:\\Program Files\\Google\\Cloud SDK\\google-cloud-sdk\\bin\\gcloud.cmd");
        push_fixed(
            &mut cands,
            "C:\\Program Files (x86)\\Google\\Cloud SDK\\google-cloud-sdk\\bin\\gcloud.cmd",
        );
    } else {
        push_fixed(&mut cands, "/usr/local/bin/gcloud");
        push_fixed(&mut cands, "/opt/homebrew/bin/gcloud");
        push_fixed(&mut cands, "/usr/bin/gcloud");
        push_fixed(&mut cands, "/bin/gcloud");
        push_fixed(&mut cands, "/opt/local/bin/gcloud");
    }
    proof {
        assert(cands.deep_view() =~~= gcloud_cli_candidates(windows, home.deep_view()));
    }
    pick_path(&cands, existing, which_result)
}

} // verus!
