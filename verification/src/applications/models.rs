//! Installed applications and the package managers they come from.

use vstd::prelude::*;

verus! {

/// The package manager an application was installed with.
#[derive(Debug, Clone, Copy, PartialEq, Eq, Structural)]
pub enum PackageSource {
    Pacman,
    Aur,
    Flatpak,
    Snap,
    Dpkg,
    Rpm,
    AppImage,
}

/// The code of a source, as used in application ids.
pub open spec fn package_code(s: PackageSource) -> Seq<char> {
    match s {
        PackageSource::Pacman => "pacman"@,
        PackageSource::Aur => "aur"@,
        PackageSource::Flatpak => "flatpak"@,
        PackageSource::Snap => "snap"@,
        PackageSource::Dpkg => "dpkg"@,
        PackageSource::Rpm => "rpm"@,
        PackageSource::AppImage => "appimage"@,
    }
}

impl PackageSource {
    pub fn as_str(&self) -> (r: &'static str)
        ensures
            r@ == match *self {
                PackageSource::Pacman => "Pacman"@,
                PackageSource::Aur => "AUR"@,
                PackageSource::Flatpak => "Flatpak"@,
                PackageSource::Snap => "Snap"@,
                PackageSource::Dpkg => "APT"@,
                PackageSource::Rpm => "RPM"@,
                PackageSource::AppImage => "AppImage"@,
            },
    {
        match self {
            PackageSource::Pacman => "Pacman",
            PackageSource::Aur => "AUR",
            PackageSource::Flatpak => "Flatpak",
            PackageSource::Snap => "Snap",
            PackageSource::Dpkg => "APT",
            PackageSource::Rpm => "RPM",
            PackageSource::AppImage => "AppImage",
        }
    }

    pub fn code(&self) -> (r: &'static str)
        ensures
            r@ == package_code(*self),
    {
        match self {
            PackageSource::Pacman => "pacman",
            PackageSource::Aur => "aur",
            PackageSource::Flatpak => "flatpak",
            PackageSource::Snap => "snap",
            PackageSource::Dpkg => "dpkg",
            PackageSource::Rpm => "rpm",
            PackageSource::AppImage => "appimage",
        }
    }
}

/// An installed application.
#[derive(Debug, PartialEq, Eq)]
pub struct ApplicationItem {
    pub id: String,
    pub package_id: String,
    pub name: String,
    pub version: String,
    pub description: String,
    pub source: PackageSource,
    pub icon: String,
    pub icon_path: Option<String>,
    pub exec_cmd: Option<String>,
    pub installed_size_bytes: Option<u64>,
    pub size_formatted: String,
    pub desktop_file_path: Option<String>,
    pub is_desktop_app: bool,
    pub selected: bool,
}

/// A copy of an optional string.
pub fn clone_opt(o: &Option<String>) -> (r: Option<String>)
    ensures
        r == *o,
{
    match o {
        Some(s) => Some(s.clone()),
        None => None,
    }
}

impl Clone for ApplicationItem {
    fn clone(&self) -> (r: Self)
        ensures
            r == *self,
    {
        ApplicationItem {
            id: self.id.clone(),
            package_id: self.package_id.clone(),
            name: self.name.clone(),
            version: self.version.clone(),
            description: self.description.clone(),
            source: self.source,
            icon: self.icon.clone(),
            icon_path: clone_opt(&self.icon_path),
            exec_cmd: clone_opt(&self.exec_cmd),
            installed_size_bytes: self.installed_size_bytes,
            size_formatted: self.size_formatted.clone(),
            desktop_file_path: clone_opt(&self.desktop_file_path),
            is_desktop_app: self.is_desktop_app,
            selected: self.selected,
        }
    }
}

} // verus!
