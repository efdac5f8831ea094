//! Completion items: the swizzle and snippet tables, the word and member
//! under the cursor, and the item lists built for a completion request.
use vstd::prelude::*;
use crate::config::ascii_lower_of;
use crate::lexical::ident_pred;
use crate::symbols::lit;
use crate::text::{
    ascii_lower, byte_col, byte_pos_of, char_floor, char_floor_of, char_is_alphanumeric, char_is_whitespace, chars_of, ends_with, ends_with_of, eq_ignore_ascii_case,
    extend, is_ident_char, lead, slice_of, starts_with_of, starts_with, starts_with_ignore_case, string_of, trail,
    on_boundary, trim_end, trim_end_of, trim_start, trim_start_of,
};

verus! {

/// The documentation of a completion item.
pub enum Documentation {
    Absent,
    Plain(String),
    Markdown(String),
}

/// A replacement of the characters `start..end` of line `line`.
pub struct TextEdit {
    pub line: usize,
    pub start: usize,
    pub end: usize,
    pub new_text: String,
}

/// One completion item, with the fields of the language server protocol
/// that this server fills.
pub struct CompletionItem {
    pub label: String,
    pub kind: u32,
    pub detail: Option<String>,
    pub documentation: Documentation,
    pub insert_text: Option<String>,
    pub insert_text_format: Option<u32>,
    pub text_edit: Option<TextEdit>,
    pub sort_text: Option<String>,
}

/// Mathematical value of [`Documentation`].
pub enum DocView {
    Absent,
    Plain(Seq<char>),
    Markdown(Seq<char>),
}

/// Mathematical value of [`TextEdit`].
pub struct EditView {
    pub line: nat,
    pub start: nat,
    pub end: nat,
    pub new_text: Seq<char>,
}

/// Mathematical value of [`CompletionItem`].
pub struct ItemView {
    pub label: Seq<char>,
    pub kind: u32,
    pub detail: Option<Seq<char>>,
    pub documentation: DocView,
    pub insert_text: Option<Seq<char>>,
    pub insert_text_format: Option<u32>,
    pub text_edit: Option<EditView>,
    pub sort_text: Option<Seq<char>>,
}

impl View for Documentation {
    type V = DocView;

    open spec fn view(&self) -> DocView {
        match self {
            Documentation::Absent => DocView::Absent,
            Documentation::Plain(s) => DocView::Plain(s@),
            Documentation::Markdown(s) => DocView::Markdown(s@),
        }
    }
}

impl View for TextEdit {
    type V = EditView;

    open spec fn view(&self) -> EditView {
        EditView {
            line: self.line as nat,
            start: self.start as nat,
            end: self.end as nat,
            new_text: self.new_text@,
        }
    }
}

pub open spec fn opt_edit_view(e: Option<TextEdit>) -> Option<EditView> {
    match e {
        Some(x) => Some(x@),
        None => None,
    }
}

impl View for CompletionItem {
    type V = ItemView;

    open spec fn view(&self) -> ItemView {
        ItemView {
            label: self.label@,
            kind: self.kind,
            detail: crate::symbols::opt_view(self.detail),
            documentation: self.documentation@,
            insert_text: crate::symbols::opt_view(self.insert_text),
            insert_text_format: self.insert_text_format,
            text_edit: opt_edit_view(self.text_edit),
            sort_text: crate::symbols::opt_view(self.sort_text),
        }
    }
}

pub open spec fn items_view(v: Seq<CompletionItem>) -> Seq<ItemView> {
    v.map_values(|x: CompletionItem| x@)
}

impl Documentation {
    /// A copy.
    pub fn duplicate(&self) -> (r: Documentation)
        ensures
            r@ == self@,
    {
        match self {
            Documentation::Absent => Documentation::Absent,
            Documentation::Plain(s) => Documentation::Plain(s.clone()),
            Documentation::Markdown(s) => Documentation::Markdown(s.clone()),
        }
    }
}

impl TextEdit {
    /// A copy.
    pub fn duplicate(&self) -> (r: TextEdit)
        ensures
            r@ == self@,
    {
        TextEdit { line: self.line, start: self.start, end: self.end, new_text: self.new_text.clone() }
    }
}

impl CompletionItem {
    /// A copy.
    pub fn duplicate(&self) -> (r: CompletionItem)
        ensures
            r@ == self@,
    {
        CompletionItem {
            label: self.label.clone(),
            kind: self.kind,
            detail: crate::symbols::opt_clone(&self.detail),
            documentation: self.documentation.duplicate(),
            insert_text: crate::symbols::opt_clone(&self.insert_text),
            insert_text_format: self.insert_text_format,
            text_edit: match &self.text_edit {
                Some(e) => Some(e.duplicate()),
                None => None,
            },
            sort_text: crate::symbols::opt_clone(&self.sort_text),
        }
    }
}

/// The decimal digit `d`.
pub open spec fn digit_char(d: nat) -> char {
    ((d + 48) as u8) as char
}

/// The decimal digits of `n`.
pub open spec fn decimal(n: nat) -> Seq<char>
    decreases n,
{
    if n < 10 {
        seq![digit_char(n)]
    } else {
        decimal(n / 10).push(digit_char(n % 10))
    }
}

/// The decimal digits of `n`.
pub fn decimal_of(n: usize) -> (r: Vec<char>)
    ensures
        r@ == decimal(n as nat),
    decreases n,
{
    if n < 10 {
        let b: u8 = (n as u8) + 48;
        let mut v: Vec<char> = Vec::new();
        v.push(b as char);
        assert(v@ =~= seq![digit_char(n as nat)]);
        v
    } else {
        let mut v = decimal_of(n / 10);
        let b: u8 = ((n % 10) as u8) + 48;
        v.push(b as char);
        v
    }
}

/// Swizzle completions of two-component vectors: label, type, description, sort group.
pub const SWIZZLES_2: [(&'static str, &'static str, &'static str, &'static str); 18] = [
    ("x", "float", "X coordinate component", "01"),
    ("y", "float", "Y coordinate component", "01"),
    ("r", "float", "Red color component", "01"),
    ("g", "float", "Green color component", "01"),
    ("s", "float", "S texture coordinate", "01"),
    ("t", "float", "T texture coordinate", "01"),
    ("xy", "vec2", "XY 2D coordinate swizzle", "02"),
    ("yx", "vec2", "YX reversed 2D coordinate swizzle", "02"),
    ("xx", "vec2", "XX duplicate swizzle", "02"),
    ("yy", "vec2", "YY duplicate swizzle", "02"),
    ("rg", "vec2", "RG 2D color swizzle", "02"),
    ("gr", "vec2", "GR reversed color swizzle", "02"),
    ("st", "vec2", "ST 2D texture coordinate swizzle", "02"),
    ("ts", "vec2", "TS reversed texture swizzle", "02"),
    ("xxx", "vec3", "XXX 3D swizzle", "03"),
    ("xyx", "vec3", "XYX 3D swizzle", "03"),
    ("xyy", "vec3", "XYY 3D swizzle", "03"),
    ("rgb", "vec3", "RGB 3D color swizzle", "03"),
];

/// Swizzle completions of three-component vectors: label, type, description, sort group.
pub const SWIZZLES_3: [(&'static str, &'static str, &'static str, &'static str); 27] = [
    ("x", "float", "X coordinate component", "01"),
    ("y", "float", "Y coordinate component", "01"),
    ("z", "float", "Z coordinate component", "01"),
    ("r", "float", "Red color component", "01"),
    ("g", "float", "Green color component", "01"),
    ("b", "float", "Blue color component", "01"),
    ("s", "float", "S texture coordinate", "01"),
    ("t", "float", "T texture coordinate", "01"),
    ("p", "float", "P texture coordinate", "01"),
    ("xy", "vec2", "XY 2D coordinate swizzle", "02"),
    ("xz", "vec2", "XZ 2D coordinate swizzle", "02"),
    ("yz", "vec2", "YZ 2D coordinate swizzle", "02"),
    ("yx", "vec2", "YX 2D coordinate swizzle", "02"),
    ("zx", "vec2", "ZX 2D coordinate swizzle", "02"),
    ("zy", "vec2", "ZY 2D coordinate swizzle", "02"),
    ("rg", "vec2", "RG color swizzle", "02"),
    ("rb", "vec2", "RB color swizzle", "02"),
    ("gb", "vec2", "GB color swizzle", "02"),
    ("xyz", "vec3", "XYZ 3D coordinate swizzle", "03"),
    ("xzy", "vec3", "XZY 3D coordinate swizzle", "03"),
    ("yxz", "vec3", "YXZ 3D coordinate swizzle", "03"),
    ("yzx", "vec3", "YZX 3D coordinate swizzle", "03"),
    ("zxy", "vec3", "ZXY 3D coordinate swizzle", "03"),
    ("zyx", "vec3", "ZYX reversed 3D coordinate swizzle", "03"),
    ("rgb", "vec3", "RGB 3D color swizzle", "03"),
    ("bgr", "vec3", "BGR reversed 3D color swizzle", "03"),
    ("stp", "vec3", "STP 3D texture coordinate swizzle", "03"),
];

/// Swizzle completions of four-component vectors: label, type, description, sort group.
pub const SWIZZLES_4: [(&'static str, &'static str, &'static str, &'static str); 39] = [
    ("x", "float", "X coordinate component", "01"),
    ("y", "float", "Y coordinate component", "01"),
    ("z", "float", "Z coordinate component", "01"),
    ("w", "float", "W coordinate component", "01"),
    ("r", "float", "Red color component", "01"),
    ("g", "float", "Green color component", "01"),
    ("b", "float", "Blue color component", "01"),
    ("a", "float", "Alpha color component", "01"),
    ("s", "float", "S texture coordinate", "01"),
    ("t", "float", "T texture coordinate", "01"),
    ("p", "float", "P texture coordinate", "01"),
    ("q", "float", "Q texture coordinate", "01"),
    ("xy", "vec2", "XY 2D coordinate swizzle", "02"),
    ("xz", "vec2", "XZ 2D coordinate swizzle", "02"),
    ("xw", "vec2", "XW 2D coordinate swizzle", "02"),
    ("yz", "vec2", "YZ 2D coordinate swizzle", "02"),
    ("yw", "vec2", "YW 2D coordinate swizzle", "02"),
    ("zw", "vec2", "ZW 2D coordinate swizzle", "02"),
    ("rg", "vec2", "RG 2D color swizzle", "02"),
    ("rb", "vec2", "RB 2D color swizzle", "02"),
    ("ra", "vec2", "RA 2D color swizzle", "02"),
    ("gb", "vec2", "GB 2D color swizzle", "02"),
    ("ba", "vec2", "BA 2D color swizzle", "02"),
    ("st", "vec2", "ST 2D texture coordinate swizzle", "02"),
    ("xyz", "vec3", "XYZ 3D coordinate swizzle", "03"),
    ("xyw", "vec3", "XYW 3D coordinate swizzle", "03"),
    ("xzw", "vec3", "XZW 3D coordinate swizzle", "03"),
    ("yzw", "vec3", "YZW 3D coordinate swizzle", "03"),
    ("zyx", "vec3", "ZYX reversed 3D coordinate swizzle", "03"),
    ("rgb", "vec3", "RGB 3D color swizzle", "03"),
    ("bgr", "vec3", "BGR reversed 3D color swizzle", "03"),
    ("stp", "vec3", "STP 3D texture coordinate swizzle", "03"),
    ("xyzw", "vec4", "XYZW 4D full coordinate swizzle", "04"),
    ("wzyx", "vec4", "WZYX reversed coordinate swizzle", "04"),
    ("rgba", "vec4", "RGBA 4D full color swizzle", "04"),
    ("abgr", "vec4", "ABGR reversed color swizzle", "04"),
    ("bgra", "vec4", "BGRA color swizzle", "04"),
    ("argb", "vec4", "ARGB color swizzle", "04"),
    ("stpq", "vec4", "STPQ 4D full texture swizzle", "04"),
];

/// Snippets: prefix, title, body, description.
pub const GLSL_SNIPPETS: [(&'static str, &'static str, &'static str, &'static str); 12] = [
    (
        "ubo",
        "Uniform Buffer Object (Generic)",
        "layout(std140, binding = ${1:0}) uniform ${2:BlockName} {\n\t$0\n};",
        "Generic Uniform Buffer Object (UBO) declaration",
    ),
    (
        "ubo-vk",
        "Uniform Buffer Object (Vulkan)",
        "layout(set = ${1:0}, binding = ${2:0}) uniform ${3:BlockName} {\n\t$0\n} ${4:ubo};",
        "Vulkan Uniform Buffer Object with set and binding",
    ),
    (
        "ssbo",
        "Shader Storage Buffer Object (Generic)",
        "layout(std430, binding = ${1:0}) buffer ${2:BlockName} {\n\t$0\n};",
        "Generic Shader Storage Buffer Object (SSBO) declaration",
    ),
    (
        "vert",
        "Vertex Shader Skeleton (OpenGL)",
        "#version 460 core\n\nlayout(location = 0) in vec3 inPosition;\n\nvoid main() {\n\tgl_Position = vec4(inPosition, 1.0);\n}\n",
        "Clean OpenGL GLSL Vertex Shader template",
    ),
    (
        "vert-vk",
        "Vertex Shader Skeleton (Vulkan)",
        "#version 460\n\nlayout(location = 0) in vec3 inPosition;\n\nvoid main() {\n\tgl_Position = vec4(inPosition, 1.0);\n}\n",
        "Clean Vulkan GLSL Vertex Shader template",
    ),
    (
        "frag",
        "Fragment Shader Skeleton (OpenGL)",
        "#version 460 core\n\nlayout(location = 0) out vec4 fragColor;\n\nvoid main() {\n\tfragColor = vec4(1.0);\n}\n",
        "Clean OpenGL GLSL Fragment Shader template",
    ),
    (
        "frag-vk",
        "Fragment Shader Skeleton (Vulkan)",
        "#version 460\n\nlayout(location = 0) out vec4 fragColor;\n\nvoid main() {\n\tfragColor = vec4(1.0);\n}\n",
        "Clean Vulkan GLSL Fragment Shader template",
    ),
    (
        "comp",
        "Compute Shader Skeleton",
        "#version 460 core\n\nlayout(local_size_x = ${1:16}, local_size_y = ${2:16}, local_size_z = ${3:1}) in;\n\nvoid main() {\n\t$0\n}\n",
        "Clean GLSL Compute Shader template",
    ),
    (
        "geom",
        "Geometry Shader Skeleton",
        "#version 460 core\n\nlayout(${1:triangles}) in;\nlayout(${2:triangle_strip}, max_vertices = ${3:3}) out;\n\nvoid main() {\n\tfor (int i = 0; i < gl_in.length(); i++) {\n\t\tgl_Position = gl_in[i].gl_Position;\n\t\tEmitVertex();\n\t}\n\tEndPrimitive();\n}\n",
        "Clean GLSL Geometry Shader template",
    ),
    (
        "struct",
        "Struct Definition",
        "struct ${1:Name} {\n\t$0\n};",
        "GLSL Struct definition",
    ),
    (
        "func",
        "Function Definition",
        "${1:void} ${2:funcName}(${3}) {\n\t$0\n}",
        "GLSL Function definition",
    ),
    (
        "main",
        "Main Function",
        "void main() {\n\t$0\n}",
        "GLSL void main() function",
    ),
];


/// The swizzle table for vectors of `dim` components (four for any other `dim`).
pub open spec fn swizzle_table(dim: usize) -> Seq<(&'static str, &'static str, &'static str, &'static str)> {
    if dim == 2 {
        SWIZZLES_2@
    } else if dim == 3 {
        SWIZZLES_3@
    } else {
        SWIZZLES_4@
    }
}

/// The completion item of one swizzle.
pub open spec fn swizzle_item(e: (&'static str, &'static str, &'static str, &'static str)) -> ItemView {
    ItemView {
        label: e.0@,
        kind: 5,
        detail: Some(e.1@),
        documentation: DocView::Plain(e.2@),
        insert_text: Some(e.0@),
        insert_text_format: None,
        text_edit: None,
        sort_text: Some(e.3@ + "_"@ + e.0@),
    }
}

/// The `length()` method item of a vector of `dim` components.
pub open spec fn length_item(dim: usize) -> ItemView {
    ItemView {
        label: "length()"@,
        kind: 2,
        detail: Some("int length() -> "@ + decimal(dim as nat)),
        documentation: DocView::Plain("Returns the number of components in this vector."@),
        insert_text: Some("length()"@),
        insert_text_format: None,
        text_edit: None,
        sort_text: Some("09_length"@),
    }
}

/// The member completions of a vector of `dim` components: its swizzles,
/// then `length()`.
pub open spec fn swizzle_items(dim: usize) -> Seq<ItemView> {
    swizzle_table(dim).map_values(|e: (&'static str, &'static str, &'static str, &'static str)| swizzle_item(e)).push(
        length_item(dim),
    )
}

fn swizzle_item_of(e: (&'static str, &'static str, &'static str, &'static str)) -> (r: CompletionItem)
    ensures
        r@ == swizzle_item(e),
{
    let mut sort = chars_of(e.3);
    extend(&mut sort, &lit("_"));
    extend(&mut sort, &chars_of(e.0));
    CompletionItem {
        label: string_of(&chars_of(e.0)),
        kind: 5,
        detail: Some(string_of(&chars_of(e.1))),
        documentation: Documentation::Plain(string_of(&chars_of(e.2))),
        insert_text: Some(string_of(&chars_of(e.0))),
        insert_text_format: None,
        text_edit: None,
        sort_text: Some(string_of(&sort)),
    }
}

fn push_swizzles<const N: usize>(
    table: &[(&'static str, &'static str, &'static str, &'static str); N],
    items: &mut Vec<CompletionItem>,
)
    ensures
        items_view(final(items)@) == items_view(old(items)@) + table@.map_values(
            |e: (&'static str, &'static str, &'static str, &'static str)| swizzle_item(e),
        ),
{
    let ghost start = items_view(items@);
    let mut i: usize = 0;
    while i < N
        invariant
            i <= N,
            items_view(items@) == start + table@.take(i as int).map_values(
                |e: (&'static str, &'static str, &'static str, &'static str)| swizzle_item(e),
            ),
        decreases N - i,
    {
        let it = swizzle_item_of(table[i]);
        let ghost before = items_view(items@);
        items.push(it);
        assert(table@.take(i + 1) =~= table@.take(i as int).push(table@[i as int]));
        assert(items_view(items@) =~= before.push(swizzle_item(table@[i as int])));
        assert(table@.take(i + 1).map_values(|e: (&'static str, &'static str, &'static str, &'static str)| swizzle_item(e))
            =~= table@.take(i as int).map_values(|e: (&'static str, &'static str, &'static str, &'static str)| swizzle_item(e)).push(
            swizzle_item(table@[i as int]),
        ));
        i = i + 1;
    }
    assert(table@.take(N as int) =~= table@);
}

#[verifier::rlimit(100)]
proof fn lemma_swizzles_2_labels()
    ensures
        forall|i: int| 0 <= i < 18 ==> crate::vectors::swizzle_pattern(#[trigger] SWIZZLES_2@[i].0@),
        forall|i: int, j: int| 0 <= i < j < 18 ==> #[trigger] SWIZZLES_2@[i].0@ != #[trigger] SWIZZLES_2@[j].0@,
{
    reveal_strlit("g");
    reveal_strlit("gr");
    reveal_strlit("r");
    reveal_strlit("rg");
    reveal_strlit("rgb");
    reveal_strlit("s");
    reveal_strlit("st");
    reveal_strlit("t");
    reveal_strlit("ts");
    reveal_strlit("x");
    reveal_strlit("xx");
    reveal_strlit("xxx");
    reveal_strlit("xy");
    reveal_strlit("xyx");
    reveal_strlit("xyy");
    reveal_strlit("y");
    reveal_strlit("yx");
    reveal_strlit("yy");
    assert(SWIZZLES_2@[0].0@ == "x"@);
    assert(SWIZZLES_2@[1].0@ == "y"@);
    assert(SWIZZLES_2@[2].0@ == "r"@);
    assert(SWIZZLES_2@[3].0@ == "g"@);
    assert(SWIZZLES_2@[4].0@ == "s"@);
    assert(SWIZZLES_2@[5].0@ == "t"@);
    assert(SWIZZLES_2@[6].0@ == "xy"@);
    assert(SWIZZLES_2@[7].0@ == "yx"@);
    assert(SWIZZLES_2@[8].0@ == "xx"@);
    assert(SWIZZLES_2@[9].0@ == "yy"@);
    assert(SWIZZLES_2@[10].0@ == "rg"@);
    assert(SWIZZLES_2@[11].0@ == "gr"@);
    assert(SWIZZLES_2@[12].0@ == "st"@);
    assert(SWIZZLES_2@[13].0@ == "ts"@);
    assert(SWIZZLES_2@[14].0@ == "xxx"@);
    assert(SWIZZLES_2@[15].0@ == "xyx"@);
    assert(SWIZZLES_2@[16].0@ == "xyy"@);
    assert(SWIZZLES_2@[17].0@ == "rgb"@);
    assert forall|i: int, j: int| 0 <= i < j < 18 implies #[trigger] SWIZZLES_2@[i].0@ != #[trigger] SWIZZLES_2@[j].0@ by {
        assert(i == 0 || i == 1 || i == 2 || i == 3 || i == 4 || i == 5 || i == 6 || i == 7 || i == 8 || i == 9 || i == 10 || i == 11 || i == 12 || i == 13 || i == 14 || i == 15 || i == 16 || i == 17);
        assert(j == 0 || j == 1 || j == 2 || j == 3 || j == 4 || j == 5 || j == 6 || j == 7 || j == 8 || j == 9 || j == 10 || j == 11 || j == 12 || j == 13 || j == 14 || j == 15 || j == 16 || j == 17);
        assert(SWIZZLES_2@[i].0@.len() != SWIZZLES_2@[j].0@.len() || SWIZZLES_2@[i].0@[0] != SWIZZLES_2@[j].0@[0] || SWIZZLES_2@[i].0@[1] != SWIZZLES_2@[j].0@[1] || SWIZZLES_2@[i].0@[2] != SWIZZLES_2@[j].0@[2] || SWIZZLES_2@[i].0@[3] != SWIZZLES_2@[j].0@[3]);
    }
}

#[verifier::rlimit(100)]
proof fn lemma_swizzles_3_labels()
    ensures
        forall|i: int| 0 <= i < 27 ==> crate::vectors::swizzle_pattern(#[trigger] SWIZZLES_3@[i].0@),
        forall|i: int, j: int| 0 <= i < j < 27 ==> #[trigger] SWIZZLES_3@[i].0@ != #[trigger] SWIZZLES_3@[j].0@,
{
    reveal_strlit("b");
    reveal_strlit("bgr");
    reveal_strlit("g");
    reveal_strlit("gb");
    reveal_strlit("p");
    reveal_strlit("r");
    reveal_strlit("rb");
    reveal_strlit("rg");
    reveal_strlit("rgb");
    reveal_strlit("s");
    reveal_strlit("stp");
    reveal_strlit("t");
    reveal_strlit("x");
    reveal_strlit("xy");
    reveal_strlit("xyz");
    reveal_strlit("xz");
    reveal_strlit("xzy");
    reveal_strlit("y");
    reveal_strlit("yx");
    reveal_strlit("yxz");
    reveal_strlit("yz");
    reveal_strlit("yzx");
    reveal_strlit("z");
    reveal_strlit("zx");
    reveal_strlit("zxy");
    reveal_strlit("zy");
    reveal_strlit("zyx");
    assert(SWIZZLES_3@[0].0@ == "x"@);
    assert(SWIZZLES_3@[1].0@ == "y"@);
    assert(SWIZZLES_3@[2].0@ == "z"@);
    assert(SWIZZLES_3@[3].0@ == "r"@);
    assert(SWIZZLES_3@[4].0@ == "g"@);
    assert(SWIZZLES_3@[5].0@ == "b"@);
    assert(SWIZZLES_3@[6].0@ == "s"@);
    assert(SWIZZLES_3@[7].0@ == "t"@);
    assert(SWIZZLES_3@[8].0@ == "p"@);
    assert(SWIZZLES_3@[9].0@ == "xy"@);
    assert(SWIZZLES_3@[10].0@ == "xz"@);
    assert(SWIZZLES_3@[11].0@ == "yz"@);
    assert(SWIZZLES_3@[12].0@ == "yx"@);
    assert(SWIZZLES_3@[13].0@ == "zx"@);
    assert(SWIZZLES_3@[14].0@ == "zy"@);
    assert(SWIZZLES_3@[15].0@ == "rg"@);
    assert(SWIZZLES_3@[16].0@ == "rb"@);
    assert(SWIZZLES_3@[17].0@ == "gb"@);
    assert(SWIZZLES_3@[18].0@ == "xyz"@);
    assert(SWIZZLES_3@[19].0@ == "xzy"@);
    assert(SWIZZLES_3@[20].0@ == "yxz"@);
    assert(SWIZZLES_3@[21].0@ == "yzx"@);
    assert(SWIZZLES_3@[22].0@ == "zxy"@);
    assert(SWIZZLES_3@[23].0@ == "zyx"@);
    assert(SWIZZLES_3@[24].0@ == "rgb"@);
    assert(SWIZZLES_3@[25].0@ == "bgr"@);
    assert(SWIZZLES_3@[26].0@ == "stp"@);
    assert forall|i: int, j: int| 0 <= i < j < 27 implies #[trigger] SWIZZLES_3@[i].0@ != #[trigger] SWIZZLES_3@[j].0@ by {
        assert(i == 0 || i == 1 || i == 2 || i == 3 || i == 4 || i == 5 || i == 6 || i == 7 || i == 8 || i == 9 || i == 10 || i == 11 || i == 12 || i == 13 || i == 14 || i == 15 || i == 16 || i == 17 || i == 18 || i == 19 || i == 20 || i == 21 || i == 22 || i == 23 || i == 24 || i == 25 || i == 26);
        assert(j == 0 || j == 1 || j == 2 || j == 3 || j == 4 || j == 5 || j == 6 || j == 7 || j == 8 || j == 9 || j == 10 || j == 11 || j == 12 || j == 13 || j == 14 || j == 15 || j == 16 || j == 17 || j == 18 || j == 19 || j == 20 || j == 21 || j == 22 || j == 23 || j == 24 || j == 25 || j == 26);
        assert(SWIZZLES_3@[i].0@.len() != SWIZZLES_3@[j].0@.len() || SWIZZLES_3@[i].0@[0] != SWIZZLES_3@[j].0@[0] || SWIZZLES_3@[i].0@[1] != SWIZZLES_3@[j].0@[1] || SWIZZLES_3@[i].0@[2] != SWIZZLES_3@[j].0@[2] || SWIZZLES_3@[i].0@[3] != SWIZZLES_3@[j].0@[3]);
    }
}

#[verifier::rlimit(100)]
proof fn lemma_swizzles_4_labels()
    ensures
        forall|i: int| 0 <= i < 39 ==> crate::vectors::swizzle_pattern(#[trigger] SWIZZLES_4@[i].0@),
        forall|i: int, j: int| 0 <= i < j < 39 ==> #[trigger] SWIZZLES_4@[i].0@ != #[trigger] SWIZZLES_4@[j].0@,
{
    reveal_strlit("a");
    reveal_strlit("abgr");
    reveal_strlit("argb");
    reveal_strlit("b");
    reveal_strlit("ba");
    reveal_strlit("bgr");
    reveal_strlit("bgra");
    reveal_strlit("g");
    reveal_strlit("gb");
    reveal_strlit("p");
    reveal_strlit("q");
    reveal_strlit("r");
    reveal_strlit("ra");
    reveal_strlit("rb");
    reveal_strlit("rg");
    reveal_strlit("rgb");
    reveal_strlit("rgba");
    reveal_strlit("s");
    reveal_strlit("st");
    reveal_strlit("stp");
    reveal_strlit("stpq");
    reveal_strlit("t");
    reveal_strlit("w");
    reveal_strlit("wzyx");
    reveal_strlit("x");
    reveal_strlit("xw");
    reveal_strlit("xy");
    reveal_strlit("xyw");
    reveal_strlit("xyz");
    reveal_strlit("xyzw");
    reveal_strlit("xz");
    reveal_strlit("xzw");
    reveal_strlit("y");
    reveal_strlit("yw");
    reveal_strlit("yz");
    reveal_strlit("yzw");
    reveal_strlit("z");
    reveal_strlit("zw");
    reveal_strlit("zyx");
    assert(SWIZZLES_4@[0].0@ == "x"@);
    assert(SWIZZLES_4@[1].0@ == "y"@);
    assert(SWIZZLES_4@[2].0@ == "z"@);
    assert(SWIZZLES_4@[3].0@ == "w"@);
    assert(SWIZZLES_4@[4].0@ == "r"@);
    assert(SWIZZLES_4@[5].0@ == "g"@);
    assert(SWIZZLES_4@[6].0@ == "b"@);
    assert(SWIZZLES_4@[7].0@ == "a"@);
    assert(SWIZZLES_4@[8].0@ == "s"@);
    assert(SWIZZLES_4@[9].0@ == "t"@);
    assert(SWIZZLES_4@[10].0@ == "p"@);
    assert(SWIZZLES_4@[11].0@ == "q"@);
    assert(SWIZZLES_4@[12].0@ == "xy"@);
    assert(SWIZZLES_4@[13].0@ == "xz"@);
    assert(SWIZZLES_4@[14].0@ == "xw"@);
    assert(SWIZZLES_4@[15].0@ == "yz"@);
    assert(SWIZZLES_4@[16].0@ == "yw"@);
    assert(SWIZZLES_4@[17].0@ == "zw"@);
    assert(SWIZZLES_4@[18].0@ == "rg"@);
    assert(SWIZZLES_4@[19].0@ == "rb"@);
    assert(SWIZZLES_4@[20].0@ == "ra"@);
    assert(SWIZZLES_4@[21].0@ == "gb"@);
    assert(SWIZZLES_4@[22].0@ == "ba"@);
    assert(SWIZZLES_4@[23].0@ == "st"@);
    assert(SWIZZLES_4@[24].0@ == "xyz"@);
    assert(SWIZZLES_4@[25].0@ == "xyw"@);
    assert(SWIZZLES_4@[26].0@ == "xzw"@);
    assert(SWIZZLES_4@[27].0@ == "yzw"@);
    assert(SWIZZLES_4@[28].0@ == "zyx"@);
    assert(SWIZZLES_4@[29].0@ == "rgb"@);
    assert(SWIZZLES_4@[30].0@ == "bgr"@);
    assert(SWIZZLES_4@[31].0@ == "stp"@);
    assert(SWIZZLES_4@[32].0@ == "xyzw"@);
    assert(SWIZZLES_4@[33].0@ == "wzyx"@);
    assert(SWIZZLES_4@[34].0@ == "rgba"@);
    assert(SWIZZLES_4@[35].0@ == "abgr"@);
    assert(SWIZZLES_4@[36].0@ == "bgra"@);
    assert(SWIZZLES_4@[37].0@ == "argb"@);
    assert(SWIZZLES_4@[38].0@ == "stpq"@);
    assert forall|i: int, j: int| 0 <= i < j < 39 implies #[trigger] SWIZZLES_4@[i].0@ != #[trigger] SWIZZLES_4@[j].0@ by {
        assert(i == 0 || i == 1 || i == 2 || i == 3 || i == 4 || i == 5 || i == 6 || i == 7 || i == 8 || i == 9 || i == 10 || i == 11 || i == 12 || i == 13 || i == 14 || i == 15 || i == 16 || i == 17 || i == 18 || i == 19 || i == 20 || i == 21 || i == 22 || i == 23 || i == 24 || i == 25 || i == 26 || i == 27 || i == 28 || i == 29 || i == 30 || i == 31 || i == 32 || i == 33 || i == 34 || i == 35 || i == 36 || i == 37 || i == 38);
        assert(j == 0 || j == 1 || j == 2 || j == 3 || j == 4 || j == 5 || j == 6 || j == 7 || j == 8 || j == 9 || j == 10 || j == 11 || j == 12 || j == 13 || j == 14 || j == 15 || j == 16 || j == 17 || j == 18 || j == 19 || j == 20 || j == 21 || j == 22 || j == 23 || j == 24 || j == 25 || j == 26 || j == 27 || j == 28 || j == 29 || j == 30 || j == 31 || j == 32 || j == 33 || j == 34 || j == 35 || j == 36 || j == 37 || j == 38);
        assert(SWIZZLES_4@[i].0@.len() != SWIZZLES_4@[j].0@.len() || SWIZZLES_4@[i].0@[0] != SWIZZLES_4@[j].0@[0] || SWIZZLES_4@[i].0@[1] != SWIZZLES_4@[j].0@[1] || SWIZZLES_4@[i].0@[2] != SWIZZLES_4@[j].0@[2] || SWIZZLES_4@[i].0@[3] != SWIZZLES_4@[j].0@[3]);
    }
}

/// The swizzle items of a vector: 19, 28 or 40 items with distinct labels,
/// each a swizzle pattern but the last, which is `length()`.
pub proof fn lemma_swizzle_items(dim: usize)
    ensures
        swizzle_items(dim).len() == (if dim == 2 {
            19int
        } else if dim == 3 {
            28int
        } else {
            40int
        }),
        swizzle_items(dim).last() == length_item(dim),
        forall|i: int|
            0 <= i < swizzle_items(dim).len() - 1 ==> crate::vectors::swizzle_pattern(#[trigger] swizzle_items(dim)[i].label),
        forall|i: int, j: int|
            0 <= i < j < swizzle_items(dim).len() ==> #[trigger] swizzle_items(dim)[i].label != #[trigger] swizzle_items(
                dim,
            )[j].label,
{
    reveal_strlit("length()");
    let t = swizzle_table(dim);
    if dim == 2 {
        lemma_swizzles_2_labels();
    } else if dim == 3 {
        lemma_swizzles_3_labels();
    } else {
        lemma_swizzles_4_labels();
    }
    let items = swizzle_items(dim);
    assert forall|i: int| 0 <= i < items.len() - 1 implies #[trigger] items[i].label == t[i].0@ by {}
    assert forall|i: int| 0 <= i < items.len() - 1 implies crate::vectors::swizzle_pattern(#[trigger] items[i].label) by {
        assert(items[i].label == t[i].0@);
    }
    assert forall|i: int, j: int| 0 <= i < j < items.len() implies #[trigger] items[i].label != #[trigger] items[j].label by {
        assert(items[i].label == t[i].0@);
        if j < items.len() - 1 {
            assert(items[j].label == t[j].0@);
        } else {
            assert(items[j].label == "length()"@);
            assert(crate::vectors::swizzle_pattern(t[i].0@));
        }
    }
}

/// The member completions of a vector of `dim` components (2, 3, or 4 for
/// any other value): its swizzles, then the `length()` method.
pub fn generate_swizzle_completions(dim: usize) -> (r: Vec<CompletionItem>)
    ensures
        items_view(r@) == swizzle_items(dim),
        r@.len() == (if dim == 2 {
            19int
        } else if dim == 3 {
            28int
        } else {
            40int
        }),
        r@.last()@ == length_item(dim),
        forall|i: int| 0 <= i < r@.len() - 1 ==> crate::vectors::swizzle_pattern(#[trigger] r@[i].label@),
        forall|i: int, j: int| 0 <= i < j < r@.len() ==> #[trigger] r@[i].label@ != #[trigger] r@[j].label@,
{
    let mut items: Vec<CompletionItem> = Vec::new();
    assert(items_view(items@) =~= Seq::<ItemView>::empty());
    if dim == 2 {
        push_swizzles(&SWIZZLES_2, &mut items);
    } else if dim == 3 {
        push_swizzles(&SWIZZLES_3, &mut items);
    } else {
        push_swizzles(&SWIZZLES_4, &mut items);
    }
    let mut detail = lit("int length() -> ");
    extend(&mut detail, &decimal_of(dim));
    let ghost before = items_view(items@);
    items.push(
        CompletionItem {
            label: string_of(&lit("length()")),
            kind: 2,
            detail: Some(string_of(&detail)),
            documentation: Documentation::Plain(string_of(&lit("Returns the number of components in this vector."))),
            insert_text: Some(string_of(&lit("length()"))),
            insert_text_format: None,
            text_edit: None,
            sort_text: Some(string_of(&lit("09_length"))),
        },
    );
    assert(items_view(items@) =~= before.push(length_item(dim)));
    proof {
        lemma_swizzle_items(dim);
        let iv = items_view(items@);
        assert(iv =~= swizzle_items(dim));
        assert(items@.last()@ == iv.last());
        assert forall|i: int| 0 <= i < items@.len() - 1 implies crate::vectors::swizzle_pattern(#[trigger] items@[i].label@) by {
            assert(items@[i]@ == iv[i]);
            assert(crate::vectors::swizzle_pattern(swizzle_items(dim)[i].label));
        }
        assert forall|i: int, j: int| 0 <= i < j < items@.len() implies #[trigger] items@[i].label@ != #[trigger] items@[j].label@ by {
            assert(items@[i]@ == iv[i]);
            assert(items@[j]@ == iv[j]);
            assert(swizzle_items(dim)[i].label != swizzle_items(dim)[j].label);
        }
    }
    items
}

/// Whether `s` starts with `prefix`, ignoring ASCII case.
pub fn starts_with_ignore_ascii_case(s: &str, prefix: &str) -> (r: bool)
    ensures
        r == starts_with_ignore_case(s@, prefix@),
{
    let a = chars_of(s);
    let p = chars_of(prefix);
    starts_with_ignore_case_of(&a, &p)
}

pub fn starts_with_ignore_case_of(a: &Vec<char>, p: &Vec<char>) -> (r: bool)
    ensures
        r == starts_with_ignore_case(a@, p@),
{
    if p.len() > a.len() {
        return false;
    }
    let mut i: usize = 0;
    while i < p.len()
        invariant
            p.len() <= a.len(),
            i <= p.len(),
            forall|j: int| 0 <= j < i ==> ascii_lower(#[trigger] a@.take(p.len() as int)[j]) == ascii_lower(p@[j]),
        decreases p.len() - i,
    {
        assert(a@.take(p.len() as int)[i as int] == a@[i as int]);
        if ascii_lower_of(a[i]) != ascii_lower_of(p[i]) {
            return false;
        }
        i = i + 1;
    }
    true
}

/// The snippet items whose prefix starts with `query` (ignoring ASCII case);
/// all of them for an empty query.
pub open spec fn snippet_items(query: Seq<char>) -> Seq<ItemView> {
    GLSL_SNIPPETS@.filter(|e: (&'static str, &'static str, &'static str, &'static str)| query.len() == 0 || starts_with_ignore_case(e.0@, query)).map_values(
        |e: (&'static str, &'static str, &'static str, &'static str)| snippet_item(e),
    )
}

/// The completion item of one snippet.
pub open spec fn snippet_item(e: (&'static str, &'static str, &'static str, &'static str)) -> ItemView {
    ItemView {
        label: e.0@,
        kind: 15,
        detail: Some(e.1@),
        documentation: DocView::Plain(e.3@),
        insert_text: Some(e.2@),
        insert_text_format: Some(2),
        text_edit: None,
        sort_text: Some("07_"@ + e.0@),
    }
}

fn snippet_item_of(e: (&'static str, &'static str, &'static str, &'static str)) -> (r: CompletionItem)
    ensures
        r@ == snippet_item(e),
{
    let mut sort = lit("07_");
    extend(&mut sort, &chars_of(e.0));
    CompletionItem {
        label: string_of(&chars_of(e.0)),
        kind: 15,
        detail: Some(string_of(&chars_of(e.1))),
        documentation: Documentation::Plain(string_of(&chars_of(e.3))),
        insert_text: Some(string_of(&chars_of(e.2))),
        insert_text_format: Some(2),
        text_edit: None,
        sort_text: Some(string_of(&sort)),
    }
}

/// The snippet completions whose prefix starts with `query`, ignoring ASCII
/// case (all of them for an empty query).
pub fn generate_snippet_completions(query: &str) -> (r: Vec<CompletionItem>)
    ensures
        items_view(r@) == snippet_items(query@),
{
    let q = chars_of(query);
    let ghost pred = |e: (&'static str, &'static str, &'static str, &'static str)| query@.len() == 0 || starts_with_ignore_case(e.0@, query@);
    let ghost f = |e: (&'static str, &'static str, &'static str, &'static str)| snippet_item(e);
    let mut items: Vec<CompletionItem> = Vec::new();
    let mut i: usize = 0;
    proof {
        crate::text::lemma_filter_empty(GLSL_SNIPPETS@.take(0), pred);
        assert(items_view(items@) =~= GLSL_SNIPPETS@.take(0).filter(pred).map_values(f));
    }
    while i < 12
        invariant
            i <= 12,
            q@ == query@,
            pred == (|e: (&'static str, &'static str, &'static str, &'static str)| query@.len() == 0 || starts_with_ignore_case(e.0@, query@)),
            f == (|e: (&'static str, &'static str, &'static str, &'static str)| snippet_item(e)),
            items_view(items@) == GLSL_SNIPPETS@.take(i as int).filter(pred).map_values(f),
        decreases 12 - i,
    {
        let e = GLSL_SNIPPETS[i];
        proof {
            crate::text::lemma_filter_push(GLSL_SNIPPETS@.take(i as int), e, pred);
            assert(GLSL_SNIPPETS@.take(i + 1) =~= GLSL_SNIPPETS@.take(i as int).push(e));
        }
        let p = chars_of(e.0);
        if q.len() == 0 || starts_with_ignore_case_of(&p, &q) {
            let ghost before = items_view(items@);
            items.push(snippet_item_of(e));
            assert(items_view(items@) =~= before.push(snippet_item(e)));
            assert(GLSL_SNIPPETS@.take(i as int).filter(pred).push(e).map_values(f) =~= GLSL_SNIPPETS@.take(
                i as int,
            ).filter(pred).map_values(f).push(f(e)));
        }
        i = i + 1;
    }
    assert(GLSL_SNIPPETS@.take(12) =~= GLSL_SNIPPETS@);
    items
}


pub open spec fn ident_dot_pred() -> spec_fn(char) -> bool {
    |c: char| is_ident_char(c) || c == '.'
}

/// The longest end of `s` whose characters all satisfy `p`.
pub open spec fn tail_by(s: Seq<char>, p: spec_fn(char) -> bool) -> Seq<char> {
    s.skip(s.len() - trail(s, p))
}

/// Number of trailing identifier characters (with `dots`, dots too).
fn trail_ident(v: &Vec<char>, dots: bool) -> (n: usize)
    ensures
        n == trail(v@, if dots { ident_dot_pred() } else { ident_pred() }),
        n <= v.len(),
{
    let ghost p = if dots { ident_dot_pred() } else { ident_pred() };
    let mut k: usize = 0;
    while k < v.len() && (char_is_alphanumeric(v[v.len() - 1 - k]) || v[v.len() - 1 - k] == '_' || (dots
        && v[v.len() - 1 - k] == '.'))
        invariant
            k <= v.len(),
            p == (if dots { ident_dot_pred() } else { ident_pred() }),
            forall|j: int| v.len() - k <= j < v.len() ==> #[trigger] p(v@[j]),
        decreases v.len() - k,
    {
        k = k + 1;
    }
    proof {
        crate::text::lemma_trail(v@, p, k as int);
    }
    k
}

/// Number of leading identifier characters.
fn lead_ident(v: &Vec<char>) -> (n: usize)
    ensures
        n == lead(v@, ident_pred()),
        n <= v.len(),
{
    let mut k: usize = 0;
    while k < v.len() && (char_is_alphanumeric(v[k]) || v[k] == '_')
        invariant
            k <= v.len(),
            forall|j: int| 0 <= j < k ==> #[trigger] ident_pred()(v@[j]),
        decreases v.len() - k,
    {
        k = k + 1;
    }
    proof {
        crate::text::lemma_lead(v@, ident_pred(), k as int);
    }
    k
}

/// Member access before the cursor: whether the text before the cursor ends
/// in `expr.` or `expr.word`, the expression before the dot, the partial
/// member word, and the column of the dot.
pub open spec fn dot_access(prefix: Seq<char>) -> (bool, Seq<char>, Seq<char>, nat) {
    let t = trim_end(prefix);
    if ends_with(t, "."@) {
        let stripped = t.drop_last();
        (true, tail_by(trim_end(stripped), ident_dot_pred()), seq![], stripped.len())
    } else {
        let ws = prefix.len() - trail(prefix, ident_pred());
        let bw = trim_end(prefix.take(ws));
        if ends_with(bw, "."@) {
            let stripped = bw.drop_last();
            (true, tail_by(trim_end(stripped), ident_dot_pred()), prefix.skip(ws), stripped.len())
        } else {
            (false, seq![], seq![], 0)
        }
    }
}

fn expr_before_dot(stripped: &Vec<char>) -> (r: Vec<char>)
    ensures
        r@ == tail_by(trim_end(stripped@), ident_dot_pred()),
{
    let bd = trim_end_of(stripped);
    let n = trail_ident(&bd, true);
    slice_of(&bd, bd.len() - n, bd.len())
}

/// Member access at the end of `p` (see [`dot_access`]), the dot's position
/// counted in characters.
pub(crate) fn dot_access_of(p: &Vec<char>) -> (r: (bool, String, String, usize))
    ensures
        r.0 == dot_access(p@).0,
        r.1@ == dot_access(p@).1,
        r.2@ == dot_access(p@).2,
        r.3 == dot_access(p@).3,
        r.0 ==> r.3 < p@.len(),
{
    let t = trim_end_of(p);
    proof {
        crate::text::lemma_trim_len(p@);
    }
    let dot = lit(".");
    proof {
        reveal_strlit(".");
    }
    if ends_with_of(&t, &dot) {
        let stripped = slice_of(&t, 0, t.len() - 1);
        assert(stripped@ =~= t@.drop_last());
        let e = expr_before_dot(&stripped);
        return (true, string_of(&e), string_of(&Vec::new()), stripped.len());
    }
    let n = trail_ident(p, false);
    assert(n == trail(p@, ident_pred()));
    let ws = p.len() - n;
    let head = slice_of(p, 0, ws);
    assert(head@ =~= p@.take(ws as int));
    let bw = trim_end_of(&head);
    proof {
        crate::text::lemma_trim_len(head@);
    }
    if ends_with_of(&bw, &dot) {
        let stripped = slice_of(&bw, 0, bw.len() - 1);
        assert(stripped@ =~= bw@.drop_last());
        let e = expr_before_dot(&stripped);
        let w = slice_of(p, ws, p.len());
        assert(w@ =~= p@.skip(ws as int));
        return (true, string_of(&e), string_of(&w), stripped.len());
    }
    (false, string_of(&Vec::new()), string_of(&Vec::new()), 0)
}

/// Detects member access before the cursor (see [`dot_access`]); the
/// position of the dot is its byte offset in `prefix`.
pub fn detect_dot_access(prefix: &str) -> (r: (bool, String, String, usize))
    ensures
        r.0 == dot_access(prefix@).0,
        r.1@ == dot_access(prefix@).1,
        r.2@ == dot_access(prefix@).2,
        r.3 == byte_col(prefix@, dot_access(prefix@).3 as int),
{
    let p = chars_of(prefix);
    let r = dot_access_of(&p);
    let b = byte_pos_of(&p, r.3);
    (r.0, r.1, r.2, b)
}

/// The start column of the word that ends at the end of `prefix`, and the word.
pub open spec fn word_prefix(prefix: Seq<char>) -> (nat, Seq<char>) {
    let ws = (prefix.len() - trail(prefix, ident_pred())) as nat;
    (ws, prefix.skip(ws as int))
}

/// The identifier being typed at the end of `p`: its start (a character
/// index) and text.
pub(crate) fn word_prefix_of(p: &Vec<char>) -> (r: (usize, String))
    ensures
        r.0 == word_prefix(p@).0,
        r.1@ == word_prefix(p@).1,
        r.0 <= p@.len(),
{
    let n = trail_ident(p, false);
    assert(n == trail(p@, ident_pred()));
    let w = slice_of(p, p.len() - n, p.len());
    (p.len() - n, string_of(&w))
}

/// The identifier being typed at the end of `prefix`: its start as a byte
/// offset, and its text.
pub fn extract_word_prefix(prefix: &str) -> (r: (usize, String))
    ensures
        r.0 == byte_col(prefix@, word_prefix(prefix@).0 as int),
        r.1@ == word_prefix(prefix@).1,
{
    let p = chars_of(prefix);
    let w = word_prefix_of(&p);
    let b = byte_pos_of(&p, w.0);
    (b, w.1)
}

/// The end column of the identifier that continues at `col`, and whether
/// the next non-blank character after it is `(`.
pub open spec fn following_paren(line: Seq<char>, col: nat) -> (nat, bool) {
    let we = col + lead(line.skip(col as int), ident_pred());
    (we, starts_with(trim_start(line.skip(we as int)), "("@))
}

/// The end (a character index) of the word continuing at character `safe`
/// of `l`, and whether a `(` follows it.
pub(crate) fn following_paren_of(l: &Vec<char>, safe_col: usize) -> (r: (usize, bool))
    requires
        safe_col <= l@.len(),
    ensures
        r.0 == following_paren(l@, safe_col as nat).0,
        r.1 == following_paren(l@, safe_col as nat).1,
        r.0 <= l@.len(),
{
    let rest = slice_of(l, safe_col, l.len());
    let n = lead_ident(&rest);
    let we = safe_col + n;
    let after = slice_of(l, we, l.len());
    assert(after@ =~= l@.skip(we as int));
    let ts = trim_start_of(&after);
    let has = starts_with_of(&ts, &lit("("));
    (we, has)
}

/// The end of the word continuing at byte offset `safe_col` of `line` and
/// whether a `(` follows it; the end is a byte offset. `safe_col` lies on a
/// character boundary of the line (slicing the line there would panic otherwise).
pub fn check_following_paren(line: &str, safe_col: usize) -> (r: (usize, bool))
    requires
        on_boundary(line@, safe_col as nat),
    ensures
        r.0 == byte_col(line@, following_paren(line@, char_floor(line@, safe_col as nat)).0 as int),
        r.1 == following_paren(line@, char_floor(line@, safe_col as nat)).1,
        char_floor(line@, safe_col as nat) <= following_paren(line@, char_floor(line@, safe_col as nat)).0
            <= line@.len(),
        safe_col <= crate::text::byte_pos(line@, following_paren(line@, char_floor(line@, safe_col as nat)).0 as int)
            <= crate::text::byte_len(line@),
        forall|j: int|
            char_floor(line@, safe_col as nat) <= j < following_paren(line@, char_floor(line@, safe_col as nat)).0
                ==> is_ident_char(#[trigger] line@[j]),
        following_paren(line@, char_floor(line@, safe_col as nat)).0 == line@.len() || !is_ident_char(
            line@[following_paren(line@, char_floor(line@, safe_col as nat)).0 as int],
        ),
        r.1 == starts_with(
            trim_start(line@.skip(following_paren(line@, char_floor(line@, safe_col as nat)).0 as int)),
            "("@,
        ),
{
    let l = chars_of(line);
    let k = char_floor_of(&l, safe_col);
    let f = following_paren_of(&l, k);
    let b = byte_pos_of(&l, f.0);
    proof {
        let rest = l@.skip(k as int);
        crate::text::lemma_lead_facts(rest, ident_pred());
        assert forall|j: int| k <= j < f.0 implies is_ident_char(#[trigger] l@[j]) by {
            assert(rest[j - k] == l@[j]);
            assert(ident_pred()(rest[j - k]));
        }
        if f.0 < l@.len() {
            assert(rest[f.0 - k] == l@[f.0 as int]);
        }
        crate::text::lemma_byte_pos_mono(l@, k as int, f.0 as int);
        crate::text::lemma_byte_pos_mono(l@, f.0 as int, l@.len() as int);
        crate::text::lemma_byte_pos_zero(l@);
    }
    (b, f.1)
}

} // verus!
