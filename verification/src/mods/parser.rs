//! The grammar of scene files and of mesh files, over their tokens.
//!
//! A scene is a list of blocks: a keyword, `{`, fields, `}`. A field is a
//! key, `:` and a value: numbers, as many as the key asks for, or a name.
//! Numbers stay as they are written.

use vstd::prelude::*;
use crate::mods::lexer::{lexemes_of, tokenize, tokens_of, LexError, Lexeme, Token};
use crate::mods::text::{copy_text, text_is};

verus! {

/// The kinds of block of a scene file.
#[derive(Debug, Clone, Copy, PartialEq, Eq, Structural)]
pub enum BlockKind {
    Camera,
    Material,
    Sphere,
    Plane,
    Triangle,
    Cube,
    Mesh,
}

/// The keys of the fields of all blocks.
#[derive(Debug, Clone, Copy, PartialEq, Eq, Structural)]
pub enum FieldKey {
    Position,
    Rotation,
    FocalLength,
    Fov,
    Name,
    Color,
    EmissionColor,
    SpecularColor,
    EmissionStrength,
    Smoothness,
    SpecularProb,
    Radius,
    Mat,
    Point,
    Normal,
    Point1,
    Point2,
    Point3,
    Size,
    ObjFile,
}

/// What the value of a field is made of.
#[derive(Debug, Clone, Copy, PartialEq, Eq, Structural)]
pub enum Shape {
    /// This many numbers.
    Numbers(usize),
    /// One name.
    Name,
}

/// The kind of block that the keyword `word` opens.
pub open spec fn block_kind_of(word: Seq<char>) -> Option<BlockKind> {
    if word == "camera"@ {
        Some(BlockKind::Camera)
    } else if word == "material"@ {
        Some(BlockKind::Material)
    } else if word == "sphere"@ {
        Some(BlockKind::Sphere)
    } else if word == "plane"@ {
        Some(BlockKind::Plane)
    } else if word == "triangle"@ {
        Some(BlockKind::Triangle)
    } else if word == "cube"@ {
        Some(BlockKind::Cube)
    } else if word == "mesh"@ {
        Some(BlockKind::Mesh)
    } else {
        None
    }
}

/// The key that `word` names in a block of kind `kind`.
pub open spec fn field_key_of(kind: BlockKind, word: Seq<char>) -> Option<FieldKey> {
    match kind {
        BlockKind::Camera => if word == "position"@ {
            Some(FieldKey::Position)
        } else if word == "rotation"@ {
            Some(FieldKey::Rotation)
        } else if word == "focal_length"@ {
            Some(FieldKey::FocalLength)
        } else if word == "fov"@ {
            Some(FieldKey::Fov)
        } else {
            None
        },
        BlockKind::Material => if word == "name"@ {
            Some(FieldKey::Name)
        } else if word == "color"@ {
            Some(FieldKey::Color)
        } else if word == "emission_color"@ {
            Some(FieldKey::EmissionColor)
        } else if word == "specular_color"@ {
            Some(FieldKey::SpecularColor)
        } else if word == "emission_strength"@ {
            Some(FieldKey::EmissionStrength)
        } else if word == "smoothness"@ {
            Some(FieldKey::Smoothness)
        } else if word == "specular_prob"@ {
            Some(FieldKey::SpecularProb)
        } else {
            None
        },
        BlockKind::Sphere => if word == "position"@ {
            Some(FieldKey::Position)
        } else if word == "radius"@ {
            Some(FieldKey::Radius)
        } else if word == "mat"@ {
            Some(FieldKey::Mat)
        } else {
            None
        },
        BlockKind::Plane => if word == "point"@ {
            Some(FieldKey::Point)
        } else if word == "normal"@ {
            Some(FieldKey::Normal)
        } else if word == "mat"@ {
            Some(FieldKey::Mat)
        } else {
            None
        },
        BlockKind::Triangle => if word == "point_1"@ {
            Some(FieldKey::Point1)
        } else if word == "point_2"@ {
            Some(FieldKey::Point2)
        } else if word == "point_3"@ {
            Some(FieldKey::Point3)
        } else if word == "mat"@ {
            Some(FieldKey::Mat)
        } else {
            None
        },
        BlockKind::Cube => if word == "position"@ {
            Some(FieldKey::Position)
        } else if word == "rotation"@ {
            Some(FieldKey::Rotation)
        } else if word == "size"@ {
            Some(FieldKey::Size)
        } else if word == "mat"@ {
            Some(FieldKey::Mat)
        } else {
            None
        },
        BlockKind::Mesh => if word == "position"@ {
            Some(FieldKey::Position)
        } else if word == "rotation"@ {
            Some(FieldKey::Rotation)
        } else if word == "obj_file"@ {
            Some(FieldKey::ObjFile)
        } else if word == "mat"@ {
            Some(FieldKey::Mat)
        } else {
            None
        },
    }
}

/// What the value of the field `key` is made of: a rotation is four
/// numbers, a place, a direction or a colour three, any other quantity one;
/// the names of materials and files are names.
pub open spec fn shape_of(key: FieldKey) -> Shape {
    match key {
        FieldKey::Rotation => Shape::Numbers(4),
        FieldKey::Position
        | FieldKey::Color
        | FieldKey::EmissionColor
        | FieldKey::SpecularColor
        | FieldKey::Point
        | FieldKey::Normal
        | FieldKey::Point1
        | FieldKey::Point2
        | FieldKey::Point3 => Shape::Numbers(3),
        FieldKey::FocalLength
        | FieldKey::Fov
        | FieldKey::EmissionStrength
        | FieldKey::Smoothness
        | FieldKey::SpecularProb
        | FieldKey::Radius
        | FieldKey::Size => Shape::Numbers(1),
        FieldKey::Name | FieldKey::Mat | FieldKey::ObjFile => Shape::Name,
    }
}

/// The kind of block that the keyword `word` opens.
pub fn block_kind(word: &Vec<char>) -> (r: Option<BlockKind>)
    ensures
        r == block_kind_of(word@),
{
    if text_is(word, "camera") {
        Some(BlockKind::Camera)
    } else if text_is(word, "material") {
        Some(BlockKind::Material)
    } else if text_is(word, "sphere") {
        Some(BlockKind::Sphere)
    } else if text_is(word, "plane") {
        Some(BlockKind::Plane)
    } else if text_is(word, "triangle") {
        Some(BlockKind::Triangle)
    } else if text_is(word, "cube") {
        Some(BlockKind::Cube)
    } else if text_is(word, "mesh") {
        Some(BlockKind::Mesh)
    } else {
        None
    }
}

/// The key that `word` names in a block of kind `kind`.
pub fn field_key(kind: BlockKind, word: &Vec<char>) -> (r: Option<FieldKey>)
    ensures
        r == field_key_of(kind, word@),
{
    match kind {
        BlockKind::Camera => if text_is(word, "position") {
            Some(FieldKey::Position)
        } else if text_is(word, "rotation") {
            Some(FieldKey::Rotation)
        } else if text_is(word, "focal_length") {
            Some(FieldKey::FocalLength)
        } else if text_is(word, "fov") {
            Some(FieldKey::Fov)
        } else {
            None
        },
        BlockKind::Material => if text_is(word, "name") {
            Some(FieldKey::Name)
        } else if text_is(word, "color") {
            Some(FieldKey::Color)
        } else if text_is(word, "emission_color") {
            Some(FieldKey::EmissionColor)
        } else if text_is(word, "specular_color") {
            Some(FieldKey::SpecularColor)
        } else if text_is(word, "emission_strength") {
            Some(FieldKey::EmissionStrength)
        } else if text_is(word, "smoothness") {
            Some(FieldKey::Smoothness)
        } else if text_is(word, "specular_prob") {
            Some(FieldKey::SpecularProb)
        } else {
            None
        },
        BlockKind::Sphere => if text_is(word, "position") {
            Some(FieldKey::Position)
        } else if text_is(word, "radius") {
            Some(FieldKey::Radius)
        } else if text_is(word, "mat") {
            Some(FieldKey::Mat)
        } else {
            None
        },
        BlockKind::Plane => if text_is(word, "point") {
            Some(FieldKey::Point)
        } else if text_is(word, "normal") {
            Some(FieldKey::Normal)
        } else if text_is(word, "mat") {
            Some(FieldKey::Mat)
        } else {
            None
        },
        BlockKind::Triangle => if text_is(word, "point_1") {
            Some(FieldKey::Point1)
        } else if text_is(word, "point_2") {
            Some(FieldKey::Point2)
        } else if text_is(word, "point_3") {
            Some(FieldKey::Point3)
        } else if text_is(word, "mat") {
            Some(FieldKey::Mat)
        } else {
            None
        },
        BlockKind::Cube => if text_is(word, "position") {
            Some(FieldKey::Position)
        } else if text_is(word, "rotation") {
            Some(FieldKey::Rotation)
        } else if text_is(word, "size") {
            Some(FieldKey::Size)
        } else if text_is(word, "mat") {
            Some(FieldKey::Mat)
        } else {
            None
        },
        BlockKind::Mesh => if text_is(word, "position") {
            Some(FieldKey::Position)
        } else if text_is(word, "rotation") {
            Some(FieldKey::Rotation)
        } else if text_is(word, "obj_file") {
            Some(FieldKey::ObjFile)
        } else if text_is(word, "mat") {
            Some(FieldKey::Mat)
        } else {
            None
        },
    }
}

/// What the value of the field `key` is made of.
pub fn shape(key: FieldKey) -> (r: Shape)
    ensures
        r == shape_of(key),
{
    match key {
        FieldKey::Rotation => Shape::Numbers(4),
        FieldKey::Position
        | FieldKey::Color
        | FieldKey::EmissionColor
        | FieldKey::SpecularColor
        | FieldKey::Point
        | FieldKey::Normal
        | FieldKey::Point1
        | FieldKey::Point2
        | FieldKey::Point3 => Shape::Numbers(3),
        FieldKey::FocalLength
        | FieldKey::Fov
        | FieldKey::EmissionStrength
        | FieldKey::Smoothness
        | FieldKey::SpecularProb
        | FieldKey::Radius
        | FieldKey::Size => Shape::Numbers(1),
        FieldKey::Name | FieldKey::Mat | FieldKey::ObjFile => Shape::Name,
    }
}

/// The value of a field, as a mathematical value.
pub enum FieldValueSpec {
    /// Numbers, as they are written.
    Numbers(Seq<Seq<char>>),
    /// A name.
    Name(Seq<char>),
}

/// A field of a block, as a mathematical value.
pub struct FieldSpec {
    pub key: FieldKey,
    pub value: FieldValueSpec,
}

/// A block of a scene, as a mathematical value.
pub struct BlockSpec {
    pub kind: BlockKind,
    pub fields: Seq<FieldSpec>,
}

/// The value of a field.
#[derive(Debug, PartialEq, Eq)]
pub enum FieldValue {
    /// Numbers, as they are written.
    Numbers(Vec<Vec<char>>),
    /// A name.
    Name(Vec<char>),
}

/// A field of a block: a key and its value.
#[derive(Debug, PartialEq, Eq)]
pub struct Field {
    pub key: FieldKey,
    pub value: FieldValue,
}

/// A block of a scene: its kind and its fields, in the order in which they
/// are written.
#[derive(Debug, PartialEq, Eq)]
pub struct Block {
    pub kind: BlockKind,
    pub fields: Vec<Field>,
}

/// The texts of `texts`, as sequences.
pub open spec fn texts_of(texts: Seq<Vec<char>>) -> Seq<Seq<char>> {
    Seq::new(texts.len(), |i: int| texts[i]@)
}

impl View for FieldValue {
    type V = FieldValueSpec;

    open spec fn view(&self) -> FieldValueSpec {
        match *self {
            FieldValue::Numbers(texts) => FieldValueSpec::Numbers(texts_of(texts@)),
            FieldValue::Name(name) => FieldValueSpec::Name(name@),
        }
    }
}

impl View for Field {
    type V = FieldSpec;

    open spec fn view(&self) -> FieldSpec {
        FieldSpec { key: self.key, value: self.value@ }
    }
}

/// The fields of `fields`, as mathematical values.
pub open spec fn fields_of(fields: Seq<Field>) -> Seq<FieldSpec> {
    Seq::new(fields.len(), |i: int| fields[i]@)
}

impl View for Block {
    type V = BlockSpec;

    open spec fn view(&self) -> BlockSpec {
        BlockSpec { kind: self.kind, fields: fields_of(self.fields@) }
    }
}

/// The blocks of `blocks`, as mathematical values.
pub open spec fn blocks_of(blocks: Seq<Block>) -> Seq<BlockSpec> {
    Seq::new(blocks.len(), |i: int| blocks[i]@)
}

/// Why a list of tokens is no scene or no mesh. Places count tokens, from
/// zero.
#[derive(Debug, Clone, Copy, PartialEq, Eq, Structural)]
pub enum ParseError {
    /// The token at this place opens no block, or is no key of its block.
    UnexpectedToken { at: usize },
    /// The tokens end where `{` or `:` must stand.
    UnexpectedEnd,
    /// `{` must stand at this place, and another token does.
    ExpectedBrace { at: usize },
    /// `:` must stand at this place, and another token does.
    ExpectedColon { at: usize },
    /// A number must stand at this place; the place after the last token
    /// where the tokens end there.
    ExpectedNumber { at: usize },
    /// A name must stand at this place; the place after the last token where
    /// the tokens end there.
    ExpectedName { at: usize },
    /// The scene has no camera.
    NoCamera,
}

/// The token at `pos` is a number.
pub open spec fn is_number_at(tokens: Seq<Lexeme>, pos: int) -> bool {
    0 <= pos < tokens.len() && tokens[pos] is Number
}

/// The first place from `pos` on, and before `limit`, that holds no number;
/// `limit` where there is none.
pub open spec fn numbers_end(tokens: Seq<Lexeme>, pos: int, limit: int) -> int
    decreases limit - pos,
{
    if pos < limit && is_number_at(tokens, pos) {
        numbers_end(tokens, pos + 1, limit)
    } else {
        pos
    }
}

/// The `count` numbers that stand from `pos` on, or the first place among
/// them that holds no number.
pub open spec fn read_numbers(tokens: Seq<Lexeme>, pos: int, count: nat) -> Result<
    Seq<Seq<char>>,
    ParseError,
> {
    let end = numbers_end(tokens, pos, pos + count);
    if end == pos + count {
        Ok(Seq::new(count, |i: int| tokens[pos + i]->Number_0))
    } else {
        Err(ParseError::ExpectedNumber { at: end as usize })
    }
}

/// The value of shape `shape` that stands from `pos` on, and the place
/// after it.
pub open spec fn read_value(tokens: Seq<Lexeme>, pos: int, shape: Shape) -> Result<
    (FieldValueSpec, int),
    ParseError,
> {
    match shape {
        Shape::Numbers(count) => match read_numbers(tokens, pos, count as nat) {
            Ok(texts) => Ok((FieldValueSpec::Numbers(texts), pos + count)),
            Err(e) => Err(e),
        },
        Shape::Name => if 0 <= pos < tokens.len() && tokens[pos] is Identifier {
            Ok((FieldValueSpec::Name(tokens[pos]->Identifier_0), pos + 1))
        } else {
            Err(ParseError::ExpectedName { at: pos as usize })
        },
    }
}

/// `first` put in front of the fields of `rest`; an error stays as it is.
pub open spec fn prepend_fields(
    first: Seq<FieldSpec>,
    rest: Result<(Seq<FieldSpec>, int), ParseError>,
) -> Result<(Seq<FieldSpec>, int), ParseError> {
    match rest {
        Ok((fields, end)) => Ok((first + fields, end)),
        Err(e) => Err(e),
    }
}

/// The fields of a block of kind `kind` that stand from `pos` on, and the
/// place after the block.
///
/// Ends of lines are skipped. `}` ends the block, and so does the end of
/// the tokens. A key of the block is followed by `:` and by its value. Any
/// other token is an error.
pub open spec fn read_fields(tokens: Seq<Lexeme>, kind: BlockKind, pos: int) -> Result<
    (Seq<FieldSpec>, int),
    ParseError,
>
    decreases tokens.len() - pos,
{
    if pos < 0 || pos >= tokens.len() {
        Ok((Seq::empty(), pos))
    } else {
        match tokens[pos] {
            Lexeme::RBrace => Ok((Seq::empty(), pos + 1)),
            Lexeme::Newline => read_fields(tokens, kind, pos + 1),
            Lexeme::Identifier(word) => match field_key_of(kind, word) {
                Some(key) => if pos + 1 >= tokens.len() {
                    Err(ParseError::UnexpectedEnd)
                } else if !(tokens[pos + 1] is Colon) {
                    Err(ParseError::ExpectedColon { at: (pos + 1) as usize })
                } else {
                    match read_value(tokens, pos + 2, shape_of(key)) {
                        Ok((value, next)) => {
                            proof {
                                lemma_read_value_end(tokens, pos + 2, shape_of(key));
                            }
                            prepend_fields(
                                seq![FieldSpec { key, value }],
                                read_fields(tokens, kind, next),
                            )
                        },
                        Err(e) => Err(e),
                    }
                },
                None => Err(ParseError::UnexpectedToken { at: pos as usize }),
            },
            _ => Err(ParseError::UnexpectedToken { at: pos as usize }),
        }
    }
}

/// `value` has the shape `shape`.
pub open spec fn has_shape(value: FieldValueSpec, shape: Shape) -> bool {
    match shape {
        Shape::Numbers(count) => value is Numbers && value->Numbers_0.len() == count,
        Shape::Name => value is Name,
    }
}

/// The value of every field of `fields` has the shape that its key asks for.
pub open spec fn fields_have_shapes(fields: Seq<FieldSpec>) -> bool {
    forall|i: int|
        0 <= i < fields.len() ==> has_shape((#[trigger] fields[i]).value, shape_of(fields[i].key))
}

/// The value of every field that was read has the shape that its key asks
/// for.
pub proof fn lemma_fields_have_shapes(tokens: Seq<Lexeme>, kind: BlockKind, pos: int)
    requires
        0 <= pos <= tokens.len(),
    ensures
        read_fields(tokens, kind, pos) is Ok ==> fields_have_shapes(
            read_fields(tokens, kind, pos)->Ok_0.0,
        ),
    decreases tokens.len() - pos,
{
    if pos < tokens.len() && read_fields(tokens, kind, pos) is Ok {
        match tokens[pos] {
            Lexeme::Newline => {
                lemma_fields_have_shapes(tokens, kind, pos + 1);
            },
            Lexeme::Identifier(word) => {
                let key = field_key_of(kind, word)->Some_0;
                let (value, next) = read_value(tokens, pos + 2, shape_of(key))->Ok_0;
                lemma_read_value_end(tokens, pos + 2, shape_of(key));
                lemma_fields_have_shapes(tokens, kind, next);
                let rest = read_fields(tokens, kind, next)->Ok_0.0;
                let all = read_fields(tokens, kind, pos)->Ok_0.0;
                assert(all =~= seq![FieldSpec { key, value }] + rest);
                assert forall|i: int| 0 <= i < all.len() implies has_shape(
                    (#[trigger] all[i]).value,
                    shape_of(all[i].key),
                ) by {
                    if i > 0 {
                        assert(all[i] == rest[i - 1]);
                    }
                }
            },
            _ => {},
        }
    }
}

/// The block of kind `kind` whose `{` must stand at `pos`, and the place
/// after the block.
pub open spec fn read_block(tokens: Seq<Lexeme>, kind: BlockKind, pos: int) -> Result<
    (BlockSpec, int),
    ParseError,
> {
    if pos < 0 || pos >= tokens.len() {
        Err(ParseError::UnexpectedEnd)
    } else if !(tokens[pos] is LBrace) {
        Err(ParseError::ExpectedBrace { at: pos as usize })
    } else {
        match read_fields(tokens, kind, pos + 1) {
            Ok((fields, end)) => Ok((BlockSpec { kind, fields }, end)),
            Err(e) => Err(e),
        }
    }
}

/// `first` put in front of the blocks of `rest`; an error stays as it is.
pub open spec fn prepend_blocks(
    first: Seq<BlockSpec>,
    rest: Result<Seq<BlockSpec>, ParseError>,
) -> Result<Seq<BlockSpec>, ParseError> {
    match rest {
        Ok(blocks) => Ok(first + blocks),
        Err(e) => Err(e),
    }
}

/// The fields of a block end after the place where they start, or at it
/// where the tokens have ended.
pub proof fn lemma_read_fields_end(tokens: Seq<Lexeme>, kind: BlockKind, pos: int)
    requires
        0 <= pos <= tokens.len(),
    ensures
        read_fields(tokens, kind, pos) is Ok ==> pos <= read_fields(tokens, kind, pos)->Ok_0.1
            <= tokens.len(),
    decreases tokens.len() - pos,
{
    if pos < tokens.len() {
        match tokens[pos] {
            Lexeme::Newline => {
                lemma_read_fields_end(tokens, kind, pos + 1);
            },
            Lexeme::Identifier(word) => {
                match field_key_of(kind, word) {
                    Some(key) => {
                        if pos + 1 < tokens.len() && tokens[pos + 1] is Colon {
                            match read_value(tokens, pos + 2, shape_of(key)) {
                                Ok((value, next)) => {
                                    lemma_read_value_end(tokens, pos + 2, shape_of(key));
                                    lemma_read_fields_end(tokens, kind, next);
                                },
                                Err(_) => {},
                            }
                        }
                    },
                    None => {},
                }
            },
            _ => {},
        }
    }
}

/// The numbers that are looked for from `pos` on end between `pos` and
/// `limit`; every token before their end is a number, and the one at their
/// end is none, unless that end is `limit`.
pub proof fn lemma_numbers_end(tokens: Seq<Lexeme>, pos: int, limit: int)
    requires
        pos <= limit,
    ensures
        pos <= numbers_end(tokens, pos, limit) <= limit,
        forall|i: int| pos <= i < numbers_end(tokens, pos, limit) ==> is_number_at(tokens, i),
        numbers_end(tokens, pos, limit) < limit ==> !is_number_at(
            tokens,
            numbers_end(tokens, pos, limit),
        ),
    decreases limit - pos,
{
    if pos < limit && is_number_at(tokens, pos) {
        lemma_numbers_end(tokens, pos + 1, limit);
    }
}

/// A value ends at or after the place where it starts, and inside the
/// tokens; a name ends after it.
pub proof fn lemma_read_value_end(tokens: Seq<Lexeme>, pos: int, shape: Shape)
    requires
        0 <= pos <= tokens.len(),
    ensures
        read_value(tokens, pos, shape) is Ok ==> pos <= read_value(tokens, pos, shape)->Ok_0.1
            <= tokens.len(),
        read_value(tokens, pos, shape) is Ok && shape is Name ==> pos < read_value(
            tokens,
            pos,
            shape,
        )->Ok_0.1,
{
    match shape {
        Shape::Numbers(count) => {
            lemma_numbers_end(tokens, pos, pos + count);
            if count > 0 && read_numbers(tokens, pos, count as nat) is Ok {
                assert(is_number_at(tokens, pos + count - 1));
            }
        },
        Shape::Name => {},
    }
}

/// The blocks that stand from `pos` on.
///
/// Ends of lines between blocks are skipped. A keyword opens its block.
/// Any other token is an error.
pub open spec fn read_scene(tokens: Seq<Lexeme>, pos: int) -> Result<Seq<BlockSpec>, ParseError>
    decreases tokens.len() - pos,
{
    if pos < 0 || pos >= tokens.len() {
        Ok(Seq::empty())
    } else {
        match tokens[pos] {
            Lexeme::Newline => read_scene(tokens, pos + 1),
            Lexeme::Identifier(word) => match block_kind_of(word) {
                Some(kind) => match read_block(tokens, kind, pos + 1) {
                    Ok((block, next)) => {
                        proof {
                            lemma_read_fields_end(tokens, kind, pos + 2);
                        }
                        prepend_blocks(seq![block], read_scene(tokens, next))
                    },
                    Err(e) => Err(e),
                },
                None => Err(ParseError::UnexpectedToken { at: pos as usize }),
            },
            _ => Err(ParseError::UnexpectedToken { at: pos as usize }),
        }
    }
}

/// In every block of a scene that was read, the value of every field has
/// the shape that its key asks for.
pub proof fn lemma_scene_fields_have_shapes(tokens: Seq<Lexeme>, pos: int)
    requires
        0 <= pos <= tokens.len(),
    ensures
        read_scene(tokens, pos) is Ok ==> forall|i: int|
            0 <= i < read_scene(tokens, pos)->Ok_0.len() ==> fields_have_shapes(
                (#[trigger] read_scene(tokens, pos)->Ok_0[i]).fields,
            ),
    decreases tokens.len() - pos,
{
    if pos < tokens.len() && read_scene(tokens, pos) is Ok {
        match tokens[pos] {
            Lexeme::Newline => {
                lemma_scene_fields_have_shapes(tokens, pos + 1);
            },
            Lexeme::Identifier(word) => {
                let kind = block_kind_of(word)->Some_0;
                let (block, next) = read_block(tokens, kind, pos + 1)->Ok_0;
                lemma_read_fields_end(tokens, kind, pos + 2);
                lemma_fields_have_shapes(tokens, kind, pos + 2);
                lemma_scene_fields_have_shapes(tokens, next);
                let rest = read_scene(tokens, next)->Ok_0;
                let all = read_scene(tokens, pos)->Ok_0;
                assert(all =~= seq![block] + rest);
                assert forall|i: int| 0 <= i < all.len() implies fields_have_shapes(
                    (#[trigger] all[i]).fields,
                ) by {
                    if i > 0 {
                        assert(all[i] == rest[i - 1]);
                    }
                }
            },
            _ => {},
        }
    }
}

/// `blocks` holds a camera.
pub open spec fn has_camera(blocks: Seq<BlockSpec>) -> bool {
    exists|i: int| 0 <= i < blocks.len() && (#[trigger] blocks[i]).kind == BlockKind::Camera
}

/// The scene that the tokens from `pos` on describe: their blocks, with a
/// camera among them.
pub open spec fn scene_of(tokens: Seq<Lexeme>, pos: int) -> Result<Seq<BlockSpec>, ParseError> {
    match read_scene(tokens, pos) {
        Ok(blocks) => if has_camera(blocks) {
            Ok(blocks)
        } else {
            Err(ParseError::NoCamera)
        },
        Err(e) => Err(e),
    }
}

/// Reads the `count` numbers that must stand from `pos` on.
pub fn parse_numbers(tokens: &Vec<Token>, pos: usize, count: usize) -> (r: Result<
    Vec<Vec<char>>,
    ParseError,
>)
    requires
        pos <= tokens@.len(),
    ensures
        match read_numbers(lexemes_of(tokens@), pos as int, count as nat) {
            Ok(texts) => r is Ok && texts_of(r->Ok_0@) == texts,
            Err(e) => r is Err && r->Err_0 == e,
        },
        r is Ok ==> pos + count <= tokens@.len() <= usize::MAX,
{
    let ghost lexemes = lexemes_of(tokens@);
    let n = tokens.len();
    let mut texts: Vec<Vec<char>> = Vec::new();
    let mut i: usize = 0;
    while i < count
        invariant
            i <= count,
            pos + i <= n,
            n == tokens@.len(),
            lexemes == lexemes_of(tokens@),
            texts@.len() == i,
            numbers_end(lexemes, pos as int, pos + count) == numbers_end(
                lexemes,
                pos + i,
                pos + count,
            ),
            forall|j: int| 0 <= j < i ==> (#[trigger] texts@[j])@ == lexemes[pos + j]->Number_0,
        decreases count - i,
    {
        if pos + i >= n {
            return Err(ParseError::ExpectedNumber { at: pos + i });
        }
        assert(lexemes[pos + i] == tokens@[pos + i]@);
        match &tokens[pos + i] {
            Token::Number(text) => {
                texts.push(copy_text(text));
            },
            _ => {
                return Err(ParseError::ExpectedNumber { at: pos + i });
            },
        }
        i = i + 1;
    }
    assert(texts_of(texts@) =~= Seq::new(count as nat, |j: int| lexemes[pos + j]->Number_0));
    Ok(texts)
}

/// Reads the value of shape `shape` that must stand from `pos` on, and gives
/// the place after it.
pub fn parse_value(tokens: &Vec<Token>, pos: usize, shape: Shape) -> (r: Result<
    (FieldValue, usize),
    ParseError,
>)
    requires
        pos <= tokens@.len(),
    ensures
        match read_value(lexemes_of(tokens@), pos as int, shape) {
            Ok((value, next)) => r is Ok && r->Ok_0.0@ == value && r->Ok_0.1 == next,
            Err(e) => r is Err && r->Err_0 == e,
        },
{
    match shape {
        Shape::Numbers(count) => {
            let read = parse_numbers(tokens, pos, count);
            match read {
                Ok(texts) => Ok((FieldValue::Numbers(texts), pos + count)),
                Err(e) => Err(e),
            }
        },
        Shape::Name => {
            if pos >= tokens.len() {
                return Err(ParseError::ExpectedName { at: pos });
            }
            assert(lexemes_of(tokens@)[pos as int] == tokens@[pos as int]@);
            match &tokens[pos] {
                Token::Identifier(name) => Ok((FieldValue::Name(copy_text(name)), pos + 1)),
                _ => Err(ParseError::ExpectedName { at: pos }),
            }
        },
    }
}

/// Putting two runs of fields in front, one after the other, is putting
/// both in front at once.
pub proof fn lemma_prepend_fields_twice(
    first: Seq<FieldSpec>,
    second: Seq<FieldSpec>,
    rest: Result<(Seq<FieldSpec>, int), ParseError>,
)
    ensures
        prepend_fields(first, prepend_fields(second, rest)) == prepend_fields(first + second, rest),
{
    match rest {
        Ok((fields, _)) => {
            assert(first + (second + fields) =~= (first + second) + fields);
        },
        Err(_) => {},
    }
}

/// Reads the fields of a block of kind `kind` that stand from `pos` on, and
/// gives the place after the block.
pub fn parse_fields(tokens: &Vec<Token>, kind: BlockKind, pos: usize) -> (r: Result<
    (Vec<Field>, usize),
    ParseError,
>)
    requires
        pos <= tokens@.len(),
    ensures
        match read_fields(lexemes_of(tokens@), kind, pos as int) {
            Ok((fields, end)) => r is Ok && fields_of(r->Ok_0.0@) == fields && r->Ok_0.1
                == end,
            Err(e) => r is Err && r->Err_0 == e,
        },
{
    let ghost lexemes = lexemes_of(tokens@);
    let ghost whole = read_fields(lexemes, kind, pos as int);
    let n = tokens.len();
    let mut fields: Vec<Field> = Vec::new();
    let mut at: usize = pos;
    proof {
        assert(fields_of(fields@) =~= Seq::<FieldSpec>::empty());
        if whole is Ok {
            assert(Seq::<FieldSpec>::empty() + whole->Ok_0.0 =~= whole->Ok_0.0);
        }
    }
    while at < n
        invariant
            at <= n,
            n == tokens@.len(),
            lexemes == lexemes_of(tokens@),
            whole == read_fields(lexemes, kind, pos as int),
            whole == prepend_fields(fields_of(fields@), read_fields(lexemes, kind, at as int)),
        decreases n - at,
    {
        let ghost before = fields_of(fields@);
        assert(lexemes[at as int] == tokens@[at as int]@);
        match &tokens[at] {
            Token::RBrace => {
                proof {
                    assert(before + Seq::<FieldSpec>::empty() =~= before);
                }
                return Ok((fields, at + 1));
            },
            Token::Newline => {
                at = at + 1;
            },
            Token::Identifier(word) => {
                let key = match field_key(kind, word) {
                    Some(key) => key,
                    None => {
                        return Err(ParseError::UnexpectedToken { at });
                    },
                };
                if at + 1 >= n {
                    return Err(ParseError::UnexpectedEnd);
                }
                assert(lexemes[at + 1] == tokens@[at + 1]@);
                match &tokens[at + 1] {
                    Token::Colon => {},
                    _ => {
                        return Err(ParseError::ExpectedColon { at: at + 1 });
                    },
                }
                let (value, next) = match parse_value(tokens, at + 2, shape(key)) {
                    Ok(found) => found,
                    Err(e) => {
                        return Err(e);
                    },
                };
                proof {
                    lemma_read_value_end(lexemes, at + 2, shape_of(key));
                    lemma_prepend_fields_twice(
                        before,
                        seq![FieldSpec { key, value: value@ }],
                        read_fields(lexemes, kind, next as int),
                    );
                }
                fields.push(Field { key, value });
                assert(fields_of(fields@) =~= before + seq![FieldSpec { key, value: value@ }]);
                at = next;
            },
            _ => {
                return Err(ParseError::UnexpectedToken { at });
            },
        }
    }
    assert(fields_of(fields@) + Seq::<FieldSpec>::empty() =~= fields_of(fields@));
    Ok((fields, at))
}

/// Reads the block of kind `kind` whose `{` must stand at `pos`, and gives
/// the place after the block.
pub fn parse_block(tokens: &Vec<Token>, kind: BlockKind, pos: usize) -> (r: Result<
    (Block, usize),
    ParseError,
>)
    requires
        pos <= tokens@.len(),
    ensures
        match read_block(lexemes_of(tokens@), kind, pos as int) {
            Ok((block, end)) => r is Ok && r->Ok_0.0@ == block && r->Ok_0.1 == end && pos
                < end <= tokens@.len(),
            Err(e) => r is Err && r->Err_0 == e,
        },
{
    if pos >= tokens.len() {
        return Err(ParseError::UnexpectedEnd);
    }
    assert(lexemes_of(tokens@)[pos as int] == tokens@[pos as int]@);
    match &tokens[pos] {
        Token::LBrace => {},
        _ => {
            return Err(ParseError::ExpectedBrace { at: pos });
        },
    }
    proof {
        lemma_read_fields_end(lexemes_of(tokens@), kind, pos + 1);
    }
    match parse_fields(tokens, kind, pos + 1) {
        Ok((fields, end)) => Ok((Block { kind, fields }, end)),
        Err(e) => Err(e),
    }
}

/// Putting two runs of blocks in front, one after the other, is putting
/// both in front at once.
pub proof fn lemma_prepend_blocks_twice(
    first: Seq<BlockSpec>,
    second: Seq<BlockSpec>,
    rest: Result<Seq<BlockSpec>, ParseError>,
)
    ensures
        prepend_blocks(first, prepend_blocks(second, rest)) == prepend_blocks(first + second, rest),
{
    match rest {
        Ok(blocks) => {
            assert(first + (second + blocks) =~= (first + second) + blocks);
        },
        Err(_) => {},
    }
}

/// Reads the blocks that stand from `pos` on.
pub fn parse_blocks(tokens: &Vec<Token>, pos: usize) -> (r: Result<Vec<Block>, ParseError>)
    requires
        pos <= tokens@.len(),
    ensures
        match read_scene(lexemes_of(tokens@), pos as int) {
            Ok(blocks) => r is Ok && blocks_of(r->Ok_0@) == blocks,
            Err(e) => r is Err && r->Err_0 == e,
        },
{
    let ghost lexemes = lexemes_of(tokens@);
    let ghost whole = read_scene(lexemes, pos as int);
    let n = tokens.len();
    let mut blocks: Vec<Block> = Vec::new();
    let mut at: usize = pos;
    proof {
        assert(blocks_of(blocks@) =~= Seq::<BlockSpec>::empty());
        if whole is Ok {
            assert(Seq::<BlockSpec>::empty() + whole->Ok_0 =~= whole->Ok_0);
        }
    }
    while at < n
        invariant
            at <= n,
            n == tokens@.len(),
            lexemes == lexemes_of(tokens@),
            whole == read_scene(lexemes, pos as int),
            whole == prepend_blocks(blocks_of(blocks@), read_scene(lexemes, at as int)),
        decreases n - at,
    {
        let ghost before = blocks_of(blocks@);
        assert(lexemes[at as int] == tokens@[at as int]@);
        match &tokens[at] {
            Token::Newline => {
                at = at + 1;
            },
            Token::Identifier(word) => {
                let kind = match block_kind(word) {
                    Some(kind) => kind,
                    None => {
                        return Err(ParseError::UnexpectedToken { at });
                    },
                };
                let (block, next) = match parse_block(tokens, kind, at + 1) {
                    Ok(found) => found,
                    Err(e) => {
                        return Err(e);
                    },
                };
                proof {
                    lemma_prepend_blocks_twice(
                        before,
                        seq![block@],
                        read_scene(lexemes, next as int),
                    );
                }
                blocks.push(block);
                assert(blocks_of(blocks@) =~= before + seq![blocks@[blocks@.len() - 1]@]);
                at = next;
            },
            _ => {
                return Err(ParseError::UnexpectedToken { at });
            },
        }
    }
    assert(blocks_of(blocks@) + Seq::<BlockSpec>::empty() =~= blocks_of(blocks@));
    Ok(blocks)
}

/// A line of a mesh file, as a mathematical value.
pub enum ObjItemSpec {
    /// A vertex: its three coordinates, as they are written.
    Vertex(Seq<Seq<char>>),
    /// A face: the numbers of its three vertices, as they are written.
    Face(Seq<Seq<char>>),
}

/// A line of a mesh file.
#[derive(Debug, PartialEq, Eq)]
pub enum ObjItem {
    /// A vertex: its three coordinates, as they are written.
    Vertex(Vec<Vec<char>>),
    /// A face: the numbers of its three vertices, as they are written.
    Face(Vec<Vec<char>>),
}

impl View for ObjItem {
    type V = ObjItemSpec;

    open spec fn view(&self) -> ObjItemSpec {
        match *self {
            ObjItem::Vertex(texts) => ObjItemSpec::Vertex(texts_of(texts@)),
            ObjItem::Face(texts) => ObjItemSpec::Face(texts_of(texts@)),
        }
    }
}

/// The lines of `items`, as mathematical values.
pub open spec fn items_of(items: Seq<ObjItem>) -> Seq<ObjItemSpec> {
    Seq::new(items.len(), |i: int| items[i]@)
}

/// `first` put in front of the lines of `rest`; an error stays as it is.
pub open spec fn prepend_items(
    first: Seq<ObjItemSpec>,
    rest: Result<Seq<ObjItemSpec>, ParseError>,
) -> Result<Seq<ObjItemSpec>, ParseError> {
    match rest {
        Ok(items) => Ok(first + items),
        Err(e) => Err(e),
    }
}

/// The lines of a mesh that stand from `pos` on.
///
/// Ends of lines are skipped. `v` is followed by the three coordinates of a
/// vertex, `f` by the numbers of the three vertices of a face. Any other
/// token is an error.
pub open spec fn read_obj(tokens: Seq<Lexeme>, pos: int) -> Result<Seq<ObjItemSpec>, ParseError>
    decreases tokens.len() - pos,
{
    if pos < 0 || pos >= tokens.len() {
        Ok(Seq::empty())
    } else {
        match tokens[pos] {
            Lexeme::Newline => read_obj(tokens, pos + 1),
            Lexeme::Identifier(word) => if word == "v"@ {
                match read_numbers(tokens, pos + 1, 3) {
                    Ok(texts) => {
                        proof {
                            lemma_read_value_end(tokens, pos + 1, Shape::Numbers(3));
                        }
                        prepend_items(seq![ObjItemSpec::Vertex(texts)], read_obj(tokens, pos + 4))
                    },
                    Err(e) => Err(e),
                }
            } else if word == "f"@ {
                match read_numbers(tokens, pos + 1, 3) {
                    Ok(texts) => {
                        proof {
                            lemma_read_value_end(tokens, pos + 1, Shape::Numbers(3));
                        }
                        prepend_items(seq![ObjItemSpec::Face(texts)], read_obj(tokens, pos + 4))
                    },
                    Err(e) => Err(e),
                }
            } else {
                Err(ParseError::UnexpectedToken { at: pos as usize })
            },
            _ => Err(ParseError::UnexpectedToken { at: pos as usize }),
        }
    }
}

/// Putting two runs of lines in front, one after the other, is putting both
/// in front at once.
pub proof fn lemma_prepend_items_twice(
    first: Seq<ObjItemSpec>,
    second: Seq<ObjItemSpec>,
    rest: Result<Seq<ObjItemSpec>, ParseError>,
)
    ensures
        prepend_items(first, prepend_items(second, rest)) == prepend_items(first + second, rest),
{
    match rest {
        Ok(items) => {
            assert(first + (second + items) =~= (first + second) + items);
        },
        Err(_) => {},
    }
}

/// Reads the lines of a mesh that stand from `pos` on.
pub fn parse_items(tokens: &Vec<Token>, pos: usize) -> (r: Result<Vec<ObjItem>, ParseError>)
    requires
        pos <= tokens@.len(),
    ensures
        match read_obj(lexemes_of(tokens@), pos as int) {
            Ok(items) => r is Ok && items_of(r->Ok_0@) == items,
            Err(e) => r is Err && r->Err_0 == e,
        },
{
    let ghost lexemes = lexemes_of(tokens@);
    let ghost whole = read_obj(lexemes, pos as int);
    let n = tokens.len();
    let mut items: Vec<ObjItem> = Vec::new();
    let mut at: usize = pos;
    proof {
        assert(items_of(items@) =~= Seq::<ObjItemSpec>::empty());
        if whole is Ok {
            assert(Seq::<ObjItemSpec>::empty() + whole->Ok_0 =~= whole->Ok_0);
        }
    }
    while at < n
        invariant
            at <= n,
            n == tokens@.len(),
            lexemes == lexemes_of(tokens@),
            whole == read_obj(lexemes, pos as int),
            whole == prepend_items(items_of(items@), read_obj(lexemes, at as int)),
        decreases n - at,
    {
        let ghost before = items_of(items@);
        assert(lexemes[at as int] == tokens@[at as int]@);
        match &tokens[at] {
            Token::Newline => {
                at = at + 1;
            },
            Token::Identifier(word) => {
                let vertex = text_is(word, "v");
                if !vertex && !text_is(word, "f") {
                    return Err(ParseError::UnexpectedToken { at });
                }
                let read = parse_numbers(tokens, at + 1, 3);
                let texts = match read {
                    Ok(texts) => texts,
                    Err(e) => {
                        return Err(e);
                    },
                };
                let item = if vertex {
                    ObjItem::Vertex(texts)
                } else {
                    ObjItem::Face(texts)
                };
                proof {
                    lemma_prepend_items_twice(before, seq![item@], read_obj(lexemes, at + 4));
                }
                items.push(item);
                assert(items_of(items@) =~= before + seq![items@[items@.len() - 1]@]);
                at = at + 4;
            },
            _ => {
                return Err(ParseError::UnexpectedToken { at });
            },
        }
    }
    assert(items_of(items@) + Seq::<ObjItemSpec>::empty() =~= items_of(items@));
    Ok(items)
}

/// Whether `blocks` holds a camera.
pub fn holds_camera(blocks: &Vec<Block>) -> (r: bool)
    ensures
        r == has_camera(blocks_of(blocks@)),
{
    let n = blocks.len();
    let mut i: usize = 0;
    while i < n
        invariant
            i <= n,
            n == blocks@.len(),
            forall|j: int| 0 <= j < i ==> (#[trigger] blocks_of(blocks@)[j]).kind != BlockKind::Camera,
        decreases n - i,
    {
        assert(blocks_of(blocks@)[i as int] == blocks@[i as int]@);
        match blocks[i].kind {
            BlockKind::Camera => {
                return true;
            },
            _ => {},
        }
        i = i + 1;
    }
    false
}

/// The tokens of a file, and the place up to which they have been read.
#[derive(Debug)]
pub struct Parser {
    tokens: Vec<Token>,
    pos: usize,
}

impl Parser {
    /// The tokens of the file.
    pub closed spec fn tokens(&self) -> Seq<Lexeme> {
        lexemes_of(self.tokens@)
    }

    /// The place of the next token to read.
    pub closed spec fn pos(&self) -> int {
        self.pos as int
    }

    /// The invariant of the type: the place is inside the tokens, or at
    /// their end.
    pub open spec fn wf(&self) -> bool {
        0 <= self.pos() <= self.tokens().len()
    }

    /// A parser at the start of the tokens of `input`, or the first error
    /// in that text.
    pub fn build(input: &str) -> (r: Result<Parser, LexError>)
        ensures
            match tokens_of(input@) {
                Ok(lexemes) => r is Ok && r->Ok_0.tokens() == lexemes && r->Ok_0.pos() == 0
                    && r->Ok_0.wf(),
                Err(e) => r is Err && r->Err_0 == e,
            },
    {
        match tokenize(input) {
            Ok(tokens) => Ok(Parser { tokens, pos: 0 }),
            Err(e) => Err(e),
        }
    }

    /// A parser at the start of `tokens`.
    pub fn new(tokens: Vec<Token>) -> (r: Parser)
        ensures
            r.tokens() == lexemes_of(tokens@),
            r.pos() == 0,
            r.wf(),
    {
        Parser { tokens, pos: 0 }
    }

    /// Reads the rest of the tokens as a scene: its blocks, in the order in
    /// which they are written. On success all tokens have been read; on an
    /// error the place stays where it was.
    pub fn parse_scene(&mut self) -> (r: Result<Vec<Block>, ParseError>)
        requires
            old(self).wf(),
        ensures
            final(self).wf(),
            final(self).tokens() == old(self).tokens(),
            match scene_of(old(self).tokens(), old(self).pos()) {
                Ok(blocks) => r is Ok && blocks_of(r->Ok_0@) == blocks && final(self).pos()
                    == old(self).tokens().len(),
                Err(e) => r is Err && r->Err_0 == e && final(self).pos() == old(
                    self,
                ).pos(),
            },
    {
        let read = parse_blocks(&self.tokens, self.pos);
        match read {
            Ok(blocks) => {
                if holds_camera(&blocks) {
                    self.pos = self.tokens.len();
                    Ok(blocks)
                } else {
                    Err(ParseError::NoCamera)
                }
            },
            Err(e) => Err(e),
        }
    }

    /// Reads the rest of the tokens as a mesh: its vertices and faces, in
    /// the order in which they are written. On success all tokens have been
    /// read; on an error the place stays where it was.
    pub fn parse_obj(&mut self) -> (r: Result<Vec<ObjItem>, ParseError>)
        requires
            old(self).wf(),
        ensures
            final(self).wf(),
            final(self).tokens() == old(self).tokens(),
            match read_obj(old(self).tokens(), old(self).pos()) {
                Ok(items) => r is Ok && items_of(r->Ok_0@) == items && final(self).pos()
                    == old(self).tokens().len(),
                Err(e) => r is Err && r->Err_0 == e && final(self).pos() == old(
                    self,
                ).pos(),
            },
    {
        let read = parse_items(&self.tokens, self.pos);
        match read {
            Ok(items) => {
                self.pos = self.tokens.len();
                Ok(items)
            },
            Err(e) => Err(e),
        }
    }

    /// The token at place `at`, for a message about it.
    pub fn token_at(&self, at: usize) -> (r: Option<&Token>)
        ensures
            at < self.tokens().len() ==> r is Some && r->Some_0@ == self.tokens()[at as int],
            at >= self.tokens().len() ==> r is None,
    {
        if at < self.tokens.len() {
            assert(lexemes_of(self.tokens@)[at as int] == self.tokens@[at as int]@);
            Some(&self.tokens[at])
        } else {
            None
        }
    }
}

} // verus!
