//! Verified core of a headless widget dashboard: sensor bindings, a strict
//! CSS subset with its cascade, dashboard validation, and pixel arithmetic.

pub mod assets;
pub mod binding;
pub mod cascade;
pub mod config;
pub mod number;
pub mod paint;
pub mod params;
pub mod sheet;
pub mod style;
pub mod text;
pub mod widget;

pub use binding::{
    Binding, BindingParseError, BindingResolveError, NumberOutcome, NumberTable, Resolution,
    ResolveFailure, ValueMap,
};
pub use cascade::StyledNode;
pub use config::{
    ConfigError, ConfigErrorKind, Dashboard, DashboardOptions, FileLookup, FileTable, RawDashboard,
    RawDashboardOptions, RawWidget, RawWidgetType,
};
pub use number::{place_in_range, Decimal, NumberToken, Placement};
pub use paint::{ClipRect, Pixel};
pub use sheet::{Rule, Selector, StyleSheet};
pub use style::{
    Align, Color, ComputedStyle, Display, Edges, FlexDirectionStyle, JustifyContent, Length,
    ObjectFit, ObjectPosition, Overflow, StyleError, StyleErrorKind, TextAlign, TextOverflow,
    WhiteSpace,
};
pub use widget::{
    Condition, ConditionComparison, Evaluation, FlexDirection, ProgressOrientation, Widget,
    WidgetKind, WidgetType,
};
