use std::collections::HashMap;
use vstd::prelude::*;
use vstd::string::StringExecFns;

use crate::value::Value;

verus! {
/// Main application configuration
#[derive(Clone, Debug)]
pub struct AppConfig {
    pub server: ServerConfig,
    pub security: Option<SecurityConfig>,
}

#[derive(Clone, Debug)]
pub struct ServerConfig {
    pub host: String,
    pub port: u16,
}

#[derive(Clone, Debug)]
pub struct SecurityConfig {
    pub enabled: bool,
    pub jwt_secret: Option<String>,
}

/// Backoffice configuration
#[derive(Clone, Debug)]
pub struct BackofficeConfig {
    pub id: String,
    pub name: String,
    pub description: Option<String>,
    pub data_sources: HashMap<String, DataSourceConfig>,
    pub relationships: Vec<RelationshipConfig>,
    pub sections: Vec<SectionConfig>,
}

/// Data source configuration
#[derive(Clone, Debug)]
pub enum DataSourceConfig {
    Database {
        connection_string: String,
        db_type: DatabaseType,
    },
    Api {
        base_url: String,
        headers: Option<HashMap<String, String>>,
        auth: Option<ApiAuthConfig>,
    },
    GraphQL {
        endpoint: String,
        headers: Option<HashMap<String, String>>,
        auth: Option<ApiAuthConfig>,
    },
    MongoDB {
        connection_string: String,
        database: String,
        collection: String,
    },
    Redis {
        connection_string: String,
        key_prefix: Option<String>,
    },
    Elasticsearch {
        nodes: Vec<String>,
        index: String,
        auth: Option<ApiAuthConfig>,
    },
    Grpc {
        endpoint: String,
        proto_file: String,
        service_name: String,
        tls_enabled: bool,
    },
    Kafka {
        brokers: Vec<String>,
        topic: String,
        group_id: String,
    },
    S3 {
        bucket: String,
        region: String,
        access_key: Option<String>,
        secret_key: Option<String>,
        prefix: Option<String>,
    },
    Firebase {
        project_id: String,
        collection: String,
        credentials_path: Option<String>,
    },
    Supabase {
        url: String,
        api_key: String,
        table: String,
    },
    WebSocket {
        url: String,
        reconnect: bool,
        heartbeat_interval: Option<u32>,
    },
}

#[derive(Clone, Debug)]
pub enum DatabaseType {
    Postgres,
    MySQL,
    Sqlite,
}

#[derive(Clone, Debug)]
pub struct ApiAuthConfig {
    pub auth_type: String,
    pub token: Option<String>,
    pub username: Option<String>,
    pub password: Option<String>,
}

/// Section configuration
#[derive(Clone, Debug)]
pub struct SectionConfig {
    pub id: String,
    pub name: String,
    pub icon: Option<String>,
    pub actions: Vec<ActionConfig>,
    pub audit: Option<AuditConfig>,
}

/// Which operations on a section leave an audit entry.
#[derive(Clone, Debug)]
pub struct AuditConfig {
    pub track_created: bool,
    pub track_updated: bool,
    pub track_deleted: bool,
}

/// A declared reference from a field of one section to a field of another.
#[derive(Clone, Debug)]
pub struct RelationshipConfig {
    pub id: String,
    pub from_section: String,
    pub from_field: String,
    pub to_section: String,
    pub to_field: String,
    pub relationship_type: RelationshipType,
    pub cascade_delete: bool,
}

#[derive(Clone, Debug)]
pub enum RelationshipType {
    OneToOne,
    OneToMany,
    ManyToOne,
    ManyToMany {
        junction_table: String,
        from_junction_field: String,
        to_junction_field: String,
    },
}

/// Action configuration
#[derive(Clone, Debug)]
pub struct ActionConfig {
    pub id: String,
    pub name: String,
    pub action_type: ActionType,
    pub data_source: String,
    pub query: Option<String>,
    pub endpoint: Option<String>,
    pub required_scopes: Vec<String>,
}

#[derive(Clone, Debug)]
pub enum ActionType {
    List {
        fields: Vec<FieldConfig>,
        config: ListActionConfig,
    },
    Form {
        fields: Vec<FieldConfig>,
        config: FormActionConfig,
    },
    View {
        fields: Vec<FieldConfig>,
    },
    Custom {
        fields: Vec<FieldConfig>,
    },
}

/// Configuration specific to list actions
#[derive(Clone, Debug)]
pub struct ListActionConfig {
    pub page_size: usize,
    pub enable_pagination: bool,
    pub filters: Vec<FilterConfig>,
    pub sortable_fields: Vec<String>,
    pub default_sort_field: Option<String>,
    pub default_sort_order: SortOrder,
}

/// The page size a list action gets when its configuration names none.
pub fn default_page_size() -> (r: usize)
    ensures
        r == 20,
{
    20
}

impl Default for ListActionConfig {
    fn default() -> (r: Self)
        ensures
            r.page_size == 20,
            !r.enable_pagination,
            r.filters@.len() == 0,
            r.sortable_fields@.len() == 0,
            r.default_sort_field is None,
            r.default_sort_order is Ascending,
    {
        ListActionConfig {
            page_size: default_page_size(),
            enable_pagination: false,
            filters: Vec::new(),
            sortable_fields: Vec::new(),
            default_sort_field: None,
            default_sort_order: SortOrder::Ascending,
        }
    }
}

/// Filter configuration for list actions
#[derive(Clone, Debug)]
pub struct FilterConfig {
    pub id: String,
    pub name: String,
    pub field: String,
    pub filter_type: FilterType,
}

#[derive(Clone, Debug)]
pub enum FilterType {
    Text,
    Number,
    Date,
    Select { options: Vec<String> },
    Boolean,
}

#[derive(Clone, Debug, Default)]
pub enum SortOrder {
    #[default]
    Ascending,
    Descending,
}

/// Configuration specific to form actions
#[derive(Clone, Debug)]
pub struct FormActionConfig {
    pub submit_button_text: Option<String>,
    pub cancel_button_text: Option<String>,
    pub form_mode: FormMode,
    pub redirect_on_success: Option<String>,
    pub show_success_message: bool,
}

impl Default for FormActionConfig {
    fn default() -> (r: Self)
        ensures
            r.submit_button_text is None,
            r.cancel_button_text is None,
            r.form_mode is Create,
            r.redirect_on_success is None,
            r.show_success_message,
    {
        FormActionConfig {
            submit_button_text: None,
            cancel_button_text: None,
            form_mode: FormMode::Create,
            redirect_on_success: None,
            show_success_message: true,
        }
    }
}

#[derive(Clone, Debug, Default)]
pub enum FormMode {
    #[default]
    Create,
    Update,
    Delete,
}

/// Field configuration
#[derive(Clone, Debug)]
pub struct FieldConfig {
    pub id: String,
    pub name: String,
    pub field_type: FieldType,
    pub required: bool,
    pub editable: bool,
    pub visible: bool,
    pub default_value: Option<Value>,
    pub placeholder: Option<String>,
    pub help_text: Option<String>,
    pub validations: Vec<ValidationRule>,
    pub relationship_id: Option<String>,
}

pub fn default_false() -> (r: bool)
    ensures
        !r,
{
    false
}

pub fn default_true() -> (r: bool)
    ensures
        r,
{
    true
}

#[derive(Clone, Debug)]
pub enum FieldType {
    Text {
        config: TextFieldConfig,
    },
    Number {
        config: NumberFieldConfig,
    },
    Email {
        config: EmailFieldConfig,
    },
    Password {
        config: PasswordFieldConfig,
    },
    Date {
        config: DateFieldConfig,
    },
    DateTime {
        config: DateFieldConfig,
    },
    Time {
        config: TimeFieldConfig,
    },
    Boolean {
        config: BooleanFieldConfig,
    },
    Select {
        config: SelectFieldConfig,
    },
    TextArea {
        config: TextAreaFieldConfig,
    },
    File {
        config: FileFieldConfig,
    },
    Url {
        config: UrlFieldConfig,
    },
    Phone {
        config: PhoneFieldConfig,
    },
    Currency {
        config: CurrencyFieldConfig,
    },
    Color {
        config: ColorFieldConfig,
    },
    Range {
        config: RangeFieldConfig,
    },
    Rating {
        config: RatingFieldConfig,
    },
    Tags {
        config: TagsFieldConfig,
    },
    Image {
        config: ImageFieldConfig,
    },
    Json {
        config: JsonFieldConfig,
    },
    Slug {
        config: SlugFieldConfig,
    },
    Weekday {
        config: WeekdayFieldConfig,
    },
    Month {
        config: MonthFieldConfig,
    },
    Geolocation {
        config: GeolocationFieldConfig,
    },
    Duration {
        config: DurationFieldConfig,
    },
    Percentage {
        config: PercentageFieldConfig,
    },
    Code {
        config: CodeFieldConfig,
    },
    Markdown {
        config: MarkdownFieldConfig,
    },
    RichText {
        config: RichTextFieldConfig,
    },
    IpAddress {
        config: IpAddressFieldConfig,
    },
    MultiCheckbox {
        config: MultiCheckboxFieldConfig,
    },
    Radio {
        config: RadioFieldConfig,
    },
    Autocomplete {
        config: AutocompleteFieldConfig,
    },
    Signature {
        config: SignatureFieldConfig,
    },
    Video {
        config: VideoFieldConfig,
    },
    Audio {
        config: AudioFieldConfig,
    },
    Barcode {
        config: BarcodeFieldConfig,
    },
    DateTimeRange {
        config: DateTimeRangeFieldConfig,
    },
    Slider {
        config: SliderFieldConfig,
    },
    ColorPalette {
        config: ColorPaletteFieldConfig,
    },
}

/// Text field configuration
#[derive(Clone, Debug, Default)]
pub struct TextFieldConfig {
    pub min_length: Option<usize>,
    pub max_length: Option<usize>,
    pub pattern: Option<String>,
}

/// Number field configuration (bounds and step in whole units)
#[derive(Clone, Debug)]
pub struct NumberFieldConfig {
    pub min: Option<i64>,
    pub max: Option<i64>,
    pub step: Option<i64>,
    pub allow_decimals: bool,
}

impl Default for NumberFieldConfig {
    fn default() -> (r: Self)
        ensures
            r.min is None,
            r.max is None,
            r.step is None,
            r.allow_decimals,
    {
        NumberFieldConfig {
            min: None,
            max: None,
            step: None,
            allow_decimals: true,
        }
    }
}

/// Password field configuration
#[derive(Clone, Debug, Default)]
pub struct PasswordFieldConfig {
    pub min_length: Option<usize>,
    pub max_length: Option<usize>,
    pub require_uppercase: bool,
    pub require_lowercase: bool,
    pub require_number: bool,
    pub require_special: bool,
}

/// Date field configuration
#[derive(Clone, Debug, Default)]
pub struct DateFieldConfig {
    pub min_date: Option<String>,
    pub max_date: Option<String>,
    pub format: Option<String>,
}

/// Boolean field configuration
#[derive(Clone, Debug, Default)]
pub struct BooleanFieldConfig {
    pub true_label: Option<String>,
    pub false_label: Option<String>,
}

/// Select field configuration
#[derive(Clone, Debug, Default)]
pub struct SelectFieldConfig {
    pub options: Vec<SelectOption>,
    pub multiple: bool,
    pub searchable: bool,
}

#[derive(Clone, Debug)]
pub struct SelectOption {
    pub value: String,
    pub label: String,
}

/// TextArea field configuration
#[derive(Clone, Debug)]
pub struct TextAreaFieldConfig {
    pub min_length: Option<usize>,
    pub max_length: Option<usize>,
    pub rows: usize,
}

/// The number of rows a text area gets when its configuration names none.
pub fn default_rows() -> (r: usize)
    ensures
        r == 4,
{
    4
}

impl Default for TextAreaFieldConfig {
    fn default() -> (r: Self)
        ensures
            r.min_length is None,
            r.max_length is None,
            r.rows == 4,
    {
        TextAreaFieldConfig {
            min_length: None,
            max_length: None,
            rows: default_rows(),
        }
    }
}

/// Email field configuration
#[derive(Clone, Debug)]
pub struct EmailFieldConfig {
    pub min_length: Option<usize>,
    pub max_length: Option<usize>,
    pub pattern: Option<String>,
    pub allow_multiple: bool,
    pub domain_whitelist: Option<Vec<String>>,
    pub domain_blacklist: Option<Vec<String>>,
}

impl Default for EmailFieldConfig {
    fn default() -> (r: Self)
        ensures
            r.min_length is None,
            r.max_length is None,
            r.pattern is Some && r.pattern->Some_0@ == "^[a-zA-Z0-9._%+-]+@[a-zA-Z0-9.-]+\\.[a-zA-Z]{2,}$"@,
            !r.allow_multiple,
            r.domain_whitelist is None,
            r.domain_blacklist is None,
    {
        EmailFieldConfig {
            min_length: None,
            max_length: None,
            pattern: Some(String::from_str("^[a-zA-Z0-9._%+-]+@[a-zA-Z0-9.-]+\\.[a-zA-Z]{2,}$")),
            allow_multiple: false,
            domain_whitelist: None,
            domain_blacklist: None,
        }
    }
}

/// File field configuration
#[derive(Clone, Debug, Default)]
pub struct FileFieldConfig {
    pub accepted_types: Option<Vec<String>>,
    pub max_size_mb: Option<i64>,
    pub multiple: bool,
}

/// URL field configuration
#[derive(Clone, Debug)]
pub struct UrlFieldConfig {
    pub allowed_protocols: Option<Vec<String>>,
    pub require_protocol: bool,
    pub allow_localhost: bool,
}

impl Default for UrlFieldConfig {
    fn default() -> (r: Self)
        ensures
            r.allowed_protocols is Some,
            r.allowed_protocols->Some_0@.len() == 2,
            r.allowed_protocols->Some_0@[0]@ == "http"@,
            r.allowed_protocols->Some_0@[1]@ == "https"@,
            r.require_protocol,
            !r.allow_localhost,
    {
        UrlFieldConfig {
            allowed_protocols: Some(vec![String::from_str("http"), String::from_str("https")]),
            require_protocol: true,
            allow_localhost: false,
        }
    }
}

/// Phone field configuration
#[derive(Clone, Debug, Default)]
pub struct PhoneFieldConfig {
    pub format: Option<String>,
    pub country_code: Option<String>,
    pub allow_extensions: bool,
    pub validation_pattern: Option<String>,
}

/// Currency field configuration
#[derive(Clone, Debug)]
pub struct CurrencyFieldConfig {
    pub currency_code: String,
    pub symbol: Option<String>,
    pub min: Option<i64>,
    pub max: Option<i64>,
    pub allow_negative: bool,
    pub decimal_places: usize,
}

impl Default for CurrencyFieldConfig {
    fn default() -> (r: Self)
        ensures
            r.currency_code@ == "USD"@,
            r.symbol is Some && r.symbol->Some_0@ == "$"@,
            r.min is None,
            r.max is None,
            !r.allow_negative,
            r.decimal_places == 2,
    {
        CurrencyFieldConfig {
            currency_code: String::from_str("USD"),
            symbol: Some(String::from_str("$")),
            min: None,
            max: None,
            allow_negative: false,
            decimal_places: 2,
        }
    }
}

/// Color field configuration
#[derive(Clone, Debug)]
pub struct ColorFieldConfig {
    pub format: ColorFormat,
    pub allow_alpha: bool,
    pub presets: Option<Vec<String>>,
}

#[derive(Clone, Debug)]
pub enum ColorFormat {
    Hex,
    Rgb,
    Rgba,
    Hsl,
}

impl Default for ColorFieldConfig {
    fn default() -> (r: Self)
        ensures
            r.format is Hex,
            !r.allow_alpha,
            r.presets is None,
    {
        ColorFieldConfig {
            format: ColorFormat::Hex,
            allow_alpha: false,
            presets: None,
        }
    }
}

/// Range field configuration
#[derive(Clone, Debug)]
pub struct RangeFieldConfig {
    pub min: i64,
    pub max: i64,
    pub step: i64,
    pub show_value: bool,
    pub show_ticks: bool,
    pub labels: Option<HashMap<String, String>>,
}

impl Default for RangeFieldConfig {
    fn default() -> (r: Self)
        ensures
            r.min == 0,
            r.max == 100,
            r.step == 1,
            r.show_value,
            !r.show_ticks,
            r.labels is None,
    {
        RangeFieldConfig {
            min: 0,
            max: 100,
            step: 1,
            show_value: true,
            show_ticks: false,
            labels: None,
        }
    }
}

/// Time field configuration
#[derive(Clone, Debug)]
pub struct TimeFieldConfig {
    pub format: Option<String>,
    pub min_time: Option<String>,
    pub max_time: Option<String>,
    pub step_minutes: Option<u32>,
}

impl Default for TimeFieldConfig {
    fn default() -> (r: Self)
        ensures
            r.format is Some && r.format->Some_0@ == "HH:MM"@,
            r.min_time is None,
            r.max_time is None,
            r.step_minutes is None,
    {
        TimeFieldConfig {
            format: Some(String::from_str("HH:MM")),
            min_time: None,
            max_time: None,
            step_minutes: None,
        }
    }
}

/// Rating field configuration
#[derive(Clone, Debug)]
pub struct RatingFieldConfig {
    pub max_rating: u8,
    pub icon: RatingIcon,
    pub allow_half: bool,
    pub allow_clear: bool,
}

#[derive(Clone, Debug)]
pub enum RatingIcon {
    Star,
    Heart,
    Circle,
    Thumb,
}

impl Default for RatingFieldConfig {
    fn default() -> (r: Self)
        ensures
            r.max_rating == 5,
            r.icon is Star,
            !r.allow_half,
            r.allow_clear,
    {
        RatingFieldConfig {
            max_rating: 5,
            icon: RatingIcon::Star,
            allow_half: false,
            allow_clear: true,
        }
    }
}

/// Tags field configuration
#[derive(Clone, Debug)]
pub struct TagsFieldConfig {
    pub min_tags: Option<usize>,
    pub max_tags: Option<usize>,
    pub min_tag_length: Option<usize>,
    pub max_tag_length: Option<usize>,
    pub predefined_tags: Option<Vec<String>>,
    pub allow_custom: bool,
    pub case_sensitive: bool,
}

impl Default for TagsFieldConfig {
    fn default() -> (r: Self)
        ensures
            r.min_tags is None,
            r.max_tags is None,
            r.min_tag_length is None,
            r.max_tag_length is Some && r.max_tag_length->Some_0 == 50,
            r.predefined_tags is None,
            r.allow_custom,
            !r.case_sensitive,
    {
        TagsFieldConfig {
            min_tags: None,
            max_tags: None,
            min_tag_length: None,
            max_tag_length: Some(50),
            predefined_tags: None,
            allow_custom: true,
            case_sensitive: false,
        }
    }
}

/// Image field configuration
#[derive(Clone, Debug)]
pub struct ImageFieldConfig {
    pub max_size_mb: Option<i64>,
    pub accepted_formats: Option<Vec<String>>,
    pub max_width: Option<u32>,
    pub max_height: Option<u32>,
    pub min_width: Option<u32>,
    pub min_height: Option<u32>,
    pub aspect_ratio: Option<String>,
    pub allow_crop: bool,
    pub allow_resize: bool,
    pub multiple: bool,
}

impl Default for ImageFieldConfig {
    fn default() -> (r: Self)
        ensures
            r.max_size_mb is Some && r.max_size_mb->Some_0 == 5,
            r.accepted_formats is Some,
            r.accepted_formats->Some_0@.len() == 5,
            r.accepted_formats->Some_0@[0]@ == "jpg"@,
            r.accepted_formats->Some_0@[1]@ == "jpeg"@,
            r.accepted_formats->Some_0@[2]@ == "png"@,
            r.accepted_formats->Some_0@[3]@ == "gif"@,
            r.accepted_formats->Some_0@[4]@ == "webp"@,
            r.max_width is None,
            r.max_height is None,
            r.min_width is None,
            r.min_height is None,
            r.aspect_ratio is None,
            !r.allow_crop,
            !r.allow_resize,
            !r.multiple,
    {
        ImageFieldConfig {
            max_size_mb: Some(5),
            accepted_formats: Some(vec![String::from_str("jpg"), String::from_str("jpeg"), String::from_str("png"), String::from_str("gif"), String::from_str("webp")]),
            max_width: None,
            max_height: None,
            min_width: None,
            min_height: None,
            aspect_ratio: None,
            allow_crop: false,
            allow_resize: false,
            multiple: false,
        }
    }
}

/// JSON field configuration
#[derive(Clone, Debug)]
pub struct JsonFieldConfig {
    pub schema: Option<String>,
    pub pretty_print: bool,
    pub validate_on_change: bool,
    pub min_depth: Option<usize>,
    pub max_depth: Option<usize>,
}

impl Default for JsonFieldConfig {
    fn default() -> (r: Self)
        ensures
            r.schema is None,
            r.pretty_print,
            r.validate_on_change,
            r.min_depth is None,
            r.max_depth is None,
    {
        JsonFieldConfig {
            schema: None,
            pretty_print: true,
            validate_on_change: true,
            min_depth: None,
            max_depth: None,
        }
    }
}

/// Slug field configuration
#[derive(Clone, Debug)]
pub struct SlugFieldConfig {
    pub source_field: Option<String>,
    pub separator: String,
    pub lowercase: bool,
    pub max_length: Option<usize>,
    pub allow_unicode: bool,
}

impl Default for SlugFieldConfig {
    fn default() -> (r: Self)
        ensures
            r.source_field is None,
            r.separator@ == "-"@,
            r.lowercase,
            r.max_length is Some && r.max_length->Some_0 == 100,
            !r.allow_unicode,
    {
        SlugFieldConfig {
            source_field: None,
            separator: String::from_str("-"),
            lowercase: true,
            max_length: Some(100),
            allow_unicode: false,
        }
    }
}

/// Weekday field configuration
#[derive(Clone, Debug)]
pub struct WeekdayFieldConfig {
    pub format: WeekdayFormat,
    pub start_day: Option<String>,
    pub multiple: bool,
}

#[derive(Clone, Debug)]
pub enum WeekdayFormat {
    Short,  // Mon, Tue, Wed
    Long,   // Monday, Tuesday, Wednesday
    Number, // 1-7
}

impl Default for WeekdayFieldConfig {
    fn default() -> (r: Self)
        ensures
            r.format is Long,
            r.start_day is Some && r.start_day->Some_0@ == "monday"@,
            !r.multiple,
    {
        WeekdayFieldConfig {
            format: WeekdayFormat::Long,
            start_day: Some(String::from_str("monday")),
            multiple: false,
        }
    }
}

/// Month field configuration
#[derive(Clone, Debug)]
pub struct MonthFieldConfig {
    pub format: MonthFormat,
    pub multiple: bool,
}

#[derive(Clone, Debug)]
pub enum MonthFormat {
    Short,  // Jan, Feb, Mar
    Long,   // January, February, March
    Number, // 1-12
}

impl Default for MonthFieldConfig {
    fn default() -> (r: Self)
        ensures
            r.format is Long,
            !r.multiple,
    {
        MonthFieldConfig {
            format: MonthFormat::Long,
            multiple: false,
        }
    }
}

/// Geolocation field configuration
#[derive(Clone, Debug)]
pub struct GeolocationFieldConfig {
    pub enable_map: bool,
    pub default_zoom: u8,
    pub min_lat: Option<i64>,
    pub max_lat: Option<i64>,
    pub min_lng: Option<i64>,
    pub max_lng: Option<i64>,
    pub enable_geocoding: bool,
}

impl Default for GeolocationFieldConfig {
    fn default() -> (r: Self)
        ensures
            r.enable_map,
            r.default_zoom == 13,
            r.min_lat is Some && r.min_lat->Some_0 == -90,
            r.max_lat is Some && r.max_lat->Some_0 == 90,
            r.min_lng is Some && r.min_lng->Some_0 == -180,
            r.max_lng is Some && r.max_lng->Some_0 == 180,
            !r.enable_geocoding,
    {
        GeolocationFieldConfig {
            enable_map: true,
            default_zoom: 13,
            min_lat: Some(-90),
            max_lat: Some(90),
            min_lng: Some(-180),
            max_lng: Some(180),
            enable_geocoding: false,
        }
    }
}

/// Duration field configuration
#[derive(Clone, Debug)]
pub struct DurationFieldConfig {
    pub format: DurationFormat,
    pub min_duration: Option<u32>,
    pub max_duration: Option<u32>,
    pub step_minutes: Option<u32>,
}

#[derive(Clone, Debug)]
pub enum DurationFormat {
    HoursMinutes, // 2h 30m
    Minutes,      // 150 minutes
    Seconds,      // 9000 seconds
}

impl Default for DurationFieldConfig {
    fn default() -> (r: Self)
        ensures
            r.format is HoursMinutes,
            r.min_duration is None,
            r.max_duration is None,
            r.step_minutes is Some && r.step_minutes->Some_0 == 15,
    {
        DurationFieldConfig {
            format: DurationFormat::HoursMinutes,
            min_duration: None,
            max_duration: None,
            step_minutes: Some(15),
        }
    }
}

/// Percentage field configuration
#[derive(Clone, Debug)]
pub struct PercentageFieldConfig {
    pub min: i64,
    pub max: i64,
    pub step: i64,
    pub decimal_places: usize,
    pub show_slider: bool,
}

impl Default for PercentageFieldConfig {
    fn default() -> (r: Self)
        ensures
            r.min == 0,
            r.max == 100,
            r.step == 1,
            r.decimal_places == 0,
            !r.show_slider,
    {
        PercentageFieldConfig {
            min: 0,
            max: 100,
            step: 1,
            decimal_places: 0,
            show_slider: false,
        }
    }
}

/// Code field configuration
#[derive(Clone, Debug)]
pub struct CodeFieldConfig {
    pub language: String,
    pub theme: CodeTheme,
    pub line_numbers: bool,
    pub min_lines: Option<usize>,
    pub max_lines: Option<usize>,
    pub read_only: bool,
}

#[derive(Clone, Debug)]
pub enum CodeTheme {
    Light,
    Dark,
    Monokai,
    Github,
}

impl Default for CodeFieldConfig {
    fn default() -> (r: Self)
        ensures
            r.language@ == "javascript"@,
            r.theme is Github,
            r.line_numbers,
            r.min_lines is None,
            r.max_lines is None,
            !r.read_only,
    {
        CodeFieldConfig {
            language: String::from_str("javascript"),
            theme: CodeTheme::Github,
            line_numbers: true,
            min_lines: None,
            max_lines: None,
            read_only: false,
        }
    }
}

/// Markdown field configuration
#[derive(Clone, Debug)]
pub struct MarkdownFieldConfig {
    pub min_length: Option<usize>,
    pub max_length: Option<usize>,
    pub enable_preview: bool,
    pub enable_toolbar: bool,
    pub allowed_elements: Option<Vec<String>>,
}

impl Default for MarkdownFieldConfig {
    fn default() -> (r: Self)
        ensures
            r.min_length is None,
            r.max_length is None,
            r.enable_preview,
            r.enable_toolbar,
            r.allowed_elements is None,
    {
        MarkdownFieldConfig {
            min_length: None,
            max_length: None,
            enable_preview: true,
            enable_toolbar: true,
            allowed_elements: None,
        }
    }
}

/// Rich text field configuration
#[derive(Clone, Debug)]
pub struct RichTextFieldConfig {
    pub min_length: Option<usize>,
    pub max_length: Option<usize>,
    pub toolbar_items: Vec<String>,
    pub allow_images: bool,
    pub allow_links: bool,
    pub allow_tables: bool,
}

impl Default for RichTextFieldConfig {
    fn default() -> (r: Self)
        ensures
            r.min_length is None,
            r.max_length is None,
            r.toolbar_items@.len() == 4,
            r.toolbar_items@[0]@ == "bold"@,
            r.toolbar_items@[1]@ == "italic"@,
            r.toolbar_items@[2]@ == "underline"@,
            r.toolbar_items@[3]@ == "list"@,
            r.allow_images,
            r.allow_links,
            !r.allow_tables,
    {
        RichTextFieldConfig {
            min_length: None,
            max_length: None,
            toolbar_items: vec![String::from_str("bold"), String::from_str("italic"), String::from_str("underline"), String::from_str("list")],
            allow_images: true,
            allow_links: true,
            allow_tables: false,
        }
    }
}

/// IP Address field configuration
#[derive(Clone, Debug)]
pub struct IpAddressFieldConfig {
    pub version: IpVersion,
    pub allow_private: bool,
    pub allow_loopback: bool,
}

#[derive(Clone, Debug)]
pub enum IpVersion {
    V4,
    V6,
    Both,
}

impl Default for IpAddressFieldConfig {
    fn default() -> (r: Self)
        ensures
            r.version is V4,
            r.allow_private,
            !r.allow_loopback,
    {
        IpAddressFieldConfig {
            version: IpVersion::V4,
            allow_private: true,
            allow_loopback: false,
        }
    }
}

/// Multi-checkbox field configuration
#[derive(Clone, Debug)]
pub struct MultiCheckboxFieldConfig {
    pub options: Vec<CheckboxOption>,
    pub min_selections: Option<usize>,
    pub max_selections: Option<usize>,
    pub layout: CheckboxLayout,
}

#[derive(Clone, Debug)]
pub struct CheckboxOption {
    pub value: String,
    pub label: String,
    pub disabled: bool,
}

#[derive(Clone, Debug)]
pub enum CheckboxLayout {
    Vertical,
    Horizontal,
    Grid,
}

impl Default for MultiCheckboxFieldConfig {
    fn default() -> (r: Self)
        ensures
            r.options@.len() == 0,
            r.min_selections is None,
            r.max_selections is None,
            r.layout is Vertical,
    {
        MultiCheckboxFieldConfig {
            options: Vec::new(),
            min_selections: None,
            max_selections: None,
            layout: CheckboxLayout::Vertical,
        }
    }
}

/// Radio field configuration
#[derive(Clone, Debug)]
pub struct RadioFieldConfig {
    pub options: Vec<RadioOption>,
    pub layout: RadioLayout,
}

#[derive(Clone, Debug)]
pub struct RadioOption {
    pub value: String,
    pub label: String,
    pub description: Option<String>,
}

#[derive(Clone, Debug)]
pub enum RadioLayout {
    Vertical,
    Horizontal,
    Cards,
}

impl Default for RadioFieldConfig {
    fn default() -> (r: Self)
        ensures
            r.options@.len() == 0,
            r.layout is Vertical,
    {
        RadioFieldConfig {
            options: Vec::new(),
            layout: RadioLayout::Vertical,
        }
    }
}

/// Autocomplete field configuration
#[derive(Clone, Debug)]
pub struct AutocompleteFieldConfig {
    pub options: Vec<String>,
    pub min_chars: usize,
    pub max_results: usize,
    pub allow_custom: bool,
    pub case_sensitive: bool,
}

impl Default for AutocompleteFieldConfig {
    fn default() -> (r: Self)
        ensures
            r.options@.len() == 0,
            r.min_chars == 1,
            r.max_results == 10,
            !r.allow_custom,
            !r.case_sensitive,
    {
        AutocompleteFieldConfig {
            options: Vec::new(),
            min_chars: 1,
            max_results: 10,
            allow_custom: false,
            case_sensitive: false,
        }
    }
}

/// Signature field configuration
#[derive(Clone, Debug)]
pub struct SignatureFieldConfig {
    pub width: u32,
    pub height: u32,
    pub pen_color: String,
    pub background_color: String,
    pub line_width: u8,
}

impl Default for SignatureFieldConfig {
    fn default() -> (r: Self)
        ensures
            r.width == 400,
            r.height == 200,
            r.pen_color@ == "#000000"@,
            r.background_color@ == "#FFFFFF"@,
            r.line_width == 2,
    {
        SignatureFieldConfig {
            width: 400,
            height: 200,
            pen_color: String::from_str("#000000"),
            background_color: String::from_str("#FFFFFF"),
            line_width: 2,
        }
    }
}

/// Video field configuration
#[derive(Clone, Debug)]
pub struct VideoFieldConfig {
    pub max_size_mb: Option<i64>,
    pub accepted_formats: Option<Vec<String>>,
    pub max_duration_seconds: Option<u32>,
    pub enable_preview: bool,
    pub multiple: bool,
}

impl Default for VideoFieldConfig {
    fn default() -> (r: Self)
        ensures
            r.max_size_mb is Some && r.max_size_mb->Some_0 == 100,
            r.accepted_formats is Some,
            r.accepted_formats->Some_0@.len() == 3,
            r.accepted_formats->Some_0@[0]@ == "mp4"@,
            r.accepted_formats->Some_0@[1]@ == "webm"@,
            r.accepted_formats->Some_0@[2]@ == "ogg"@,
            r.max_duration_seconds is None,
            r.enable_preview,
            !r.multiple,
    {
        VideoFieldConfig {
            max_size_mb: Some(100),
            accepted_formats: Some(vec![String::from_str("mp4"), String::from_str("webm"), String::from_str("ogg")]),
            max_duration_seconds: None,
            enable_preview: true,
            multiple: false,
        }
    }
}

/// Audio field configuration
#[derive(Clone, Debug)]
pub struct AudioFieldConfig {
    pub max_size_mb: Option<i64>,
    pub accepted_formats: Option<Vec<String>>,
    pub max_duration_seconds: Option<u32>,
    pub enable_preview: bool,
    pub multiple: bool,
}

impl Default for AudioFieldConfig {
    fn default() -> (r: Self)
        ensures
            r.max_size_mb is Some && r.max_size_mb->Some_0 == 50,
            r.accepted_formats is Some,
            r.accepted_formats->Some_0@.len() == 3,
            r.accepted_formats->Some_0@[0]@ == "mp3"@,
            r.accepted_formats->Some_0@[1]@ == "wav"@,
            r.accepted_formats->Some_0@[2]@ == "ogg"@,
            r.max_duration_seconds is None,
            r.enable_preview,
            !r.multiple,
    {
        AudioFieldConfig {
            max_size_mb: Some(50),
            accepted_formats: Some(vec![String::from_str("mp3"), String::from_str("wav"), String::from_str("ogg")]),
            max_duration_seconds: None,
            enable_preview: true,
            multiple: false,
        }
    }
}

/// Barcode field configuration
#[derive(Clone, Debug)]
pub struct BarcodeFieldConfig {
    pub format: BarcodeFormat,
    pub enable_scanner: bool,
    pub validation_pattern: Option<String>,
}

#[derive(Clone, Debug)]
pub enum BarcodeFormat {
    Qr,
    Ean13,
    Ean8,
    Upca,
    Code128,
    Code39,
}

impl Default for BarcodeFieldConfig {
    fn default() -> (r: Self)
        ensures
            r.format is Qr,
            !r.enable_scanner,
            r.validation_pattern is None,
    {
        BarcodeFieldConfig {
            format: BarcodeFormat::Qr,
            enable_scanner: false,
            validation_pattern: None,
        }
    }
}

/// Date/Time range field configuration
#[derive(Clone, Debug, Default)]
pub struct DateTimeRangeFieldConfig {
    pub include_time: bool,
    pub min_date: Option<String>,
    pub max_date: Option<String>,
    pub min_range_days: Option<u32>,
    pub max_range_days: Option<u32>,
}

/// Slider field configuration (multi-value)
#[derive(Clone, Debug)]
pub struct SliderFieldConfig {
    pub min: i64,
    pub max: i64,
    pub step: i64,
    pub handles: usize,
    pub show_values: bool,
    pub show_ticks: bool,
    pub range_mode: bool,
}

impl Default for SliderFieldConfig {
    fn default() -> (r: Self)
        ensures
            r.min == 0,
            r.max == 100,
            r.step == 1,
            r.handles == 2,
            r.show_values,
            !r.show_ticks,
            r.range_mode,
    {
        SliderFieldConfig {
            min: 0,
            max: 100,
            step: 1,
            handles: 2,
            show_values: true,
            show_ticks: false,
            range_mode: true,
        }
    }
}

/// Color palette field configuration
#[derive(Clone, Debug)]
pub struct ColorPaletteFieldConfig {
    pub max_colors: usize,
    pub default_colors: Option<Vec<String>>,
    pub allow_custom: bool,
}

impl Default for ColorPaletteFieldConfig {
    fn default() -> (r: Self)
        ensures
            r.max_colors == 5,
            r.default_colors is None,
            r.allow_custom,
    {
        ColorPaletteFieldConfig {
            max_colors: 5,
            default_colors: None,
            allow_custom: true,
        }
    }
}

/// Custom validation rule
#[derive(Clone, Debug)]
pub struct ValidationRule {
    pub rule_type: ValidationType,
    pub message: Option<String>,
    pub condition: Option<ValidationCondition>,
}

#[derive(Clone, Debug)]
pub enum ValidationType {
    Required {
        value: bool,
    },
    MinLength {
        value: usize,
    },
    MaxLength {
        value: usize,
    },
    Pattern {
        regex: String,
    },
    Min {
        value: i64,
    },
    Max {
        value: i64,
    },
    Email,
    Url,
    Phone,
    CustomFunction {
        function_name: String,
    },
    DependsOn {
        field: String,
        expected_value: Value,
    },
    UniqueIn {
        field_list: Vec<String>,
    },
    MatchField {
        field: String,
    },
    CreditCard,
    Ipv4,
    Ipv6,
    Uuid,
    DateRange {
        start_field: String,
        end_field: String,
    },
    FileSize {
        max_size_mb: i64,
    },
    FileType {
        allowed_types: Vec<String>,
    },
    StrongPassword {
        min_length: usize,
        require_uppercase: bool,
        require_lowercase: bool,
        require_number: bool,
        require_special: bool,
    },
    AlphaNumeric,
    Luhn,
    MacAddress,
    Isbn,
    Iban,
    Ssn,
    PostalCode {
        country_code: String,
    },
    Base64,
    Json,
    Hex,
    Ascii,
    NotEmpty,
    Future,
    Past,
    MinAge {
        years: u8,
    },
    MaxAge {
        years: u8,
    },
    Between {
        min: i64,
        max: i64,
    },
}

#[derive(Clone, Debug)]
pub struct ValidationCondition {
    pub field: String,
    pub operator: ConditionOperator,
    pub value: Value,
}

#[derive(Clone, Debug)]
pub enum ConditionOperator {
    Equals,
    NotEquals,
    GreaterThan,
    LessThan,
    GreaterThanOrEqual,
    LessThanOrEqual,
    Contains,
    NotContains,
    In,
    NotIn,
}

} // verus!
