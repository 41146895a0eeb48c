//! The reader's theme preference.

use vstd::prelude::*;

verus! {

/// The reader's theme choice. `System` follows the active window appearance;
/// the explicit choices remain stable when the platform changes appearance.
#[derive(Clone, Copy, Debug, PartialEq, Eq, Structural)]
pub enum ThemePreference {
    System,
    Named,
}

/// Stable instrumentation name of a theme preference.
pub open spec fn theme_preference_name(preference: ThemePreference) -> Seq<char> {
    match preference {
        ThemePreference::System => seq!['s', 'y', 's', 't', 'e', 'm'],
        ThemePreference::Named => seq!['n', 'a', 'm', 'e', 'd'],
    }
}

impl ThemePreference {
    /// The stable QA name of this preference.
    pub fn name(self) -> (name: &'static str)
        ensures
            name@ == theme_preference_name(self),
    {
        match self {
            ThemePreference::System => {
                proof { reveal_strlit("system"); }
                "system"
            },
            ThemePreference::Named => {
                proof { reveal_strlit("named"); }
                "named"
            },
        }
    }
}

impl Default for ThemePreference {
    /// Following the system appearance is the default choice.
    fn default() -> (preference: Self)
        ensures
            preference == ThemePreference::System,
    {
        ThemePreference::System
    }
}

/// How a window's background is composited.
#[derive(Clone, Copy, Debug, PartialEq, Eq, Structural)]
pub enum BackgroundAppearance {
    Opaque,
    Transparent,
    Blurred,
}

/// The window background the design system asks for: blurred when its window
/// material uses a blur backdrop, else transparent when its policy allows
/// translucency, else opaque.
pub fn window_background_appearance(backdrop_blur: bool, translucency_allowed: bool) -> (appearance:
    BackgroundAppearance)
    ensures
        appearance == (if backdrop_blur {
            BackgroundAppearance::Blurred
        } else if translucency_allowed {
            BackgroundAppearance::Transparent
        } else {
            BackgroundAppearance::Opaque
        }),
{
    if backdrop_blur {
        BackgroundAppearance::Blurred
    } else if translucency_allowed {
        BackgroundAppearance::Transparent
    } else {
        BackgroundAppearance::Opaque
    }
}

} // verus!
