use rbpt::mods::lexer::{LexError, Token};
use rbpt::mods::parser::{
    block_kind, field_key, parse_numbers, shape, Block, BlockKind, Field, FieldKey, FieldValue,
    ObjItem, ParseError, Parser, Shape,
};
use rbpt::mods::scene::find_material;

fn text(s: &str) -> Vec<char> {
    s.chars().collect()
}

fn numbers(items: &[&str]) -> FieldValue {
    FieldValue::Numbers(items.iter().map(|s| text(s)).collect())
}

fn name(s: &str) -> FieldValue {
    FieldValue::Name(text(s))
}

fn field(key: FieldKey, value: FieldValue) -> Field {
    Field { key, value }
}

fn scene(input: &str) -> Result<Vec<Block>, ParseError> {
    Parser::build(input).unwrap().parse_scene()
}

fn mesh(input: &str) -> Result<Vec<ObjItem>, ParseError> {
    Parser::build(input).unwrap().parse_obj()
}

const CAMERA: &str = "camera {\n}\n";

#[test]
fn keywords_open_their_blocks() {
    assert_eq!(block_kind(&text("camera")), Some(BlockKind::Camera));
    assert_eq!(block_kind(&text("material")), Some(BlockKind::Material));
    assert_eq!(block_kind(&text("sphere")), Some(BlockKind::Sphere));
    assert_eq!(block_kind(&text("plane")), Some(BlockKind::Plane));
    assert_eq!(block_kind(&text("triangle")), Some(BlockKind::Triangle));
    assert_eq!(block_kind(&text("cube")), Some(BlockKind::Cube));
    assert_eq!(block_kind(&text("mesh")), Some(BlockKind::Mesh));
    assert_eq!(block_kind(&text("light")), None);
    assert_eq!(block_kind(&text("Camera")), None);
    assert_eq!(block_kind(&text("")), None);
}

#[test]
fn keys_belong_to_their_blocks() {
    assert_eq!(field_key(BlockKind::Camera, &text("focal_length")), Some(FieldKey::FocalLength));
    assert_eq!(field_key(BlockKind::Camera, &text("fov")), Some(FieldKey::Fov));
    assert_eq!(field_key(BlockKind::Camera, &text("radius")), None);
    assert_eq!(field_key(BlockKind::Material, &text("name")), Some(FieldKey::Name));
    assert_eq!(field_key(BlockKind::Material, &text("specular_prob")), Some(FieldKey::SpecularProb));
    assert_eq!(field_key(BlockKind::Material, &text("mat")), None);
    assert_eq!(field_key(BlockKind::Sphere, &text("radius")), Some(FieldKey::Radius));
    assert_eq!(field_key(BlockKind::Sphere, &text("name")), None);
    assert_eq!(field_key(BlockKind::Plane, &text("normal")), Some(FieldKey::Normal));
    assert_eq!(field_key(BlockKind::Plane, &text("position")), None);
    assert_eq!(field_key(BlockKind::Triangle, &text("point_3")), Some(FieldKey::Point3));
    assert_eq!(field_key(BlockKind::Triangle, &text("point")), None);
    assert_eq!(field_key(BlockKind::Cube, &text("size")), Some(FieldKey::Size));
    assert_eq!(field_key(BlockKind::Cube, &text("obj_file")), None);
    assert_eq!(field_key(BlockKind::Mesh, &text("obj_file")), Some(FieldKey::ObjFile));
    assert_eq!(field_key(BlockKind::Mesh, &text("size")), None);
}

#[test]
fn shapes_of_values() {
    assert_eq!(shape(FieldKey::Rotation), Shape::Numbers(4));
    assert_eq!(shape(FieldKey::Position), Shape::Numbers(3));
    assert_eq!(shape(FieldKey::Color), Shape::Numbers(3));
    assert_eq!(shape(FieldKey::Normal), Shape::Numbers(3));
    assert_eq!(shape(FieldKey::Radius), Shape::Numbers(1));
    assert_eq!(shape(FieldKey::Fov), Shape::Numbers(1));
    assert_eq!(shape(FieldKey::Mat), Shape::Name);
    assert_eq!(shape(FieldKey::Name), Shape::Name);
    assert_eq!(shape(FieldKey::ObjFile), Shape::Name);
}

#[test]
fn build_reports_the_first_error_of_the_text() {
    assert_eq!(Parser::build("camera { $ }").err(), Some(LexError::UnknownCharacter { at: 9 }));
    assert_eq!(Parser::build("fov: 1-").err(), Some(LexError::MalformedNumber { at: 5 }));
}

#[test]
fn a_camera_block() {
    let input = "camera {\n  position: 0 1 -5\n  rotation: 1 0 0 0\n  focal_length: 1.5\n  fov: 60\n}\n";
    assert_eq!(
        scene(input),
        Ok(vec![Block {
            kind: BlockKind::Camera,
            fields: vec![
                field(FieldKey::Position, numbers(&["0", "1", "-5"])),
                field(FieldKey::Rotation, numbers(&["1", "0", "0", "0"])),
                field(FieldKey::FocalLength, numbers(&["1.5"])),
                field(FieldKey::Fov, numbers(&["60"])),
            ],
        }])
    );
}

#[test]
fn blocks_come_in_the_order_of_the_text() {
    let input = "material { name: red color: 1 0 0 }\ncamera {}\nsphere { radius: 2 mat: red }";
    assert_eq!(
        scene(input),
        Ok(vec![
            Block {
                kind: BlockKind::Material,
                fields: vec![
                    field(FieldKey::Name, name("red")),
                    field(FieldKey::Color, numbers(&["1", "0", "0"])),
                ],
            },
            Block { kind: BlockKind::Camera, fields: vec![] },
            Block {
                kind: BlockKind::Sphere,
                fields: vec![
                    field(FieldKey::Radius, numbers(&["2"])),
                    field(FieldKey::Mat, name("red")),
                ],
            },
        ])
    );
}

#[test]
fn a_key_may_stand_twice() {
    let input = "camera { fov: 1 fov: 2 }";
    let blocks = scene(input).unwrap();
    assert_eq!(blocks[0].fields.len(), 2);
    assert_eq!(blocks[0].last_value(FieldKey::Fov), Some(&numbers(&["2"])));
    assert_eq!(blocks[0].last_value(FieldKey::Position), None);
}

#[test]
fn a_block_may_end_with_the_text() {
    assert_eq!(
        scene("camera { fov: 3\n"),
        Ok(vec![Block {
            kind: BlockKind::Camera,
            fields: vec![field(FieldKey::Fov, numbers(&["3"]))],
        }])
    );
    assert_eq!(scene("camera {"), Ok(vec![Block { kind: BlockKind::Camera, fields: vec![] }]));
}

#[test]
fn a_scene_needs_a_camera() {
    assert_eq!(scene(""), Err(ParseError::NoCamera));
    assert_eq!(scene("\n\n"), Err(ParseError::NoCamera));
    assert_eq!(scene("sphere { radius: 1 }"), Err(ParseError::NoCamera));
}

#[test]
fn tokens_that_open_no_block() {
    assert_eq!(scene("light {}"), Err(ParseError::UnexpectedToken { at: 0 }));
    assert_eq!(scene("camera {}\n}"), Err(ParseError::UnexpectedToken { at: 4 }));
    assert_eq!(scene("camera {} 5"), Err(ParseError::UnexpectedToken { at: 3 }));
    assert_eq!(scene(": camera {}"), Err(ParseError::UnexpectedToken { at: 0 }));
}

#[test]
fn a_block_needs_its_brace() {
    assert_eq!(scene("camera"), Err(ParseError::UnexpectedEnd));
    assert_eq!(scene("camera fov"), Err(ParseError::ExpectedBrace { at: 1 }));
    assert_eq!(scene("camera\n{}"), Err(ParseError::ExpectedBrace { at: 1 }));
}

#[test]
fn keys_of_other_blocks_are_refused() {
    assert_eq!(scene("camera { radius: 1 }"), Err(ParseError::UnexpectedToken { at: 2 }));
    assert_eq!(scene("sphere { name: a }"), Err(ParseError::UnexpectedToken { at: 2 }));
    assert_eq!(scene("camera { 1 }"), Err(ParseError::UnexpectedToken { at: 2 }));
    assert_eq!(scene("camera { { }"), Err(ParseError::UnexpectedToken { at: 2 }));
    assert_eq!(scene("camera { : }"), Err(ParseError::UnexpectedToken { at: 2 }));
}

#[test]
fn a_key_needs_its_colon() {
    assert_eq!(scene("camera { fov 1 }"), Err(ParseError::ExpectedColon { at: 3 }));
    assert_eq!(scene("camera { fov"), Err(ParseError::UnexpectedEnd));
    assert_eq!(scene("camera { fov\n: 1 }"), Err(ParseError::ExpectedColon { at: 3 }));
}

#[test]
fn a_value_needs_all_its_numbers() {
    assert_eq!(scene("camera { position: 1 2 }"), Err(ParseError::ExpectedNumber { at: 6 }));
    assert_eq!(scene("camera { position: 1 2"), Err(ParseError::ExpectedNumber { at: 6 }));
    assert_eq!(scene("camera { rotation: 1 2 3\n4 }"), Err(ParseError::ExpectedNumber { at: 7 }));
    assert_eq!(scene("camera { fov: x }"), Err(ParseError::ExpectedNumber { at: 4 }));
    assert_eq!(scene("camera { fov:"), Err(ParseError::ExpectedNumber { at: 4 }));
}

#[test]
fn a_name_must_be_a_name() {
    assert_eq!(scene("sphere { mat: 5 }"), Err(ParseError::ExpectedName { at: 4 }));
    assert_eq!(scene("sphere { mat: }"), Err(ParseError::ExpectedName { at: 4 }));
    assert_eq!(scene("sphere { mat:"), Err(ParseError::ExpectedName { at: 4 }));
}

#[test]
fn more_numbers_than_asked_for_are_refused() {
    assert_eq!(scene("camera { fov: 1 2 }"), Err(ParseError::UnexpectedToken { at: 5 }));
}

#[test]
fn every_kind_of_block() {
    let input = "\
camera { position: 0 0 0 }
material { name: m color: 1 1 1 emission_color: 0 0 0 specular_color: 1 1 1 emission_strength: 0 smoothness: 0.5 specular_prob: 0.1 }
sphere { position: 0 0 0 radius: 1 mat: m }
plane { point: 0 -1 0 normal: 0 1 0 mat: m }
triangle { point_1: 0 0 0 point_2: 1 0 0 point_3: 0 1 0 mat: m }
cube { position: 0 0 0 rotation: 1 0 0 0 size: 2 mat: m }
mesh { position: 0 0 0 rotation: 1 0 0 0 obj_file: a/b.obj mat: m }
";
    let blocks = scene(input).unwrap();
    let kinds: Vec<BlockKind> = blocks.iter().map(|b| b.kind).collect();
    assert_eq!(
        kinds,
        vec![
            BlockKind::Camera,
            BlockKind::Material,
            BlockKind::Sphere,
            BlockKind::Plane,
            BlockKind::Triangle,
            BlockKind::Cube,
            BlockKind::Mesh,
        ]
    );
    assert_eq!(blocks[1].fields.len(), 7);
    assert_eq!(blocks[6].last_value(FieldKey::ObjFile), Some(&name("a/b.obj")));
    for block in blocks.iter() {
        for f in block.fields.iter() {
            match (shape(f.key), &f.value) {
                (Shape::Numbers(n), FieldValue::Numbers(texts)) => assert_eq!(texts.len(), n),
                (Shape::Name, FieldValue::Name(_)) => {}
                _ => panic!("value of another shape"),
            }
        }
    }
}

#[test]
fn parse_scene_reads_all_tokens_once() {
    let mut parser = Parser::build(CAMERA).unwrap();
    assert_eq!(parser.parse_scene().map(|b| b.len()), Ok(1));
    assert_eq!(parser.parse_scene(), Err(ParseError::NoCamera));
}

#[test]
fn parse_scene_after_an_error_starts_again() {
    let mut parser = Parser::build("camera { fov: }").unwrap();
    assert_eq!(parser.parse_scene(), Err(ParseError::ExpectedNumber { at: 4 }));
    assert_eq!(parser.parse_scene(), Err(ParseError::ExpectedNumber { at: 4 }));
}

#[test]
fn parser_over_given_tokens() {
    let tokens = vec![
        Token::Identifier(text("camera")),
        Token::LBrace,
        Token::Identifier(text("fov")),
        Token::Colon,
        Token::Number(text("45")),
        Token::RBrace,
    ];
    let mut parser = Parser::new(tokens);
    assert_eq!(parser.token_at(4), Some(&Token::Number(text("45"))));
    assert_eq!(parser.token_at(6), None);
    assert_eq!(
        parser.parse_scene(),
        Ok(vec![Block {
            kind: BlockKind::Camera,
            fields: vec![field(FieldKey::Fov, numbers(&["45"]))],
        }])
    );
}

#[test]
fn parse_numbers_reads_as_many_as_asked() {
    let tokens = vec![
        Token::Number(text("1")),
        Token::Number(text("2")),
        Token::Colon,
        Token::Number(text("3")),
    ];
    assert_eq!(parse_numbers(&tokens, 0, 0), Ok(vec![]));
    assert_eq!(parse_numbers(&tokens, 0, 2), Ok(vec![text("1"), text("2")]));
    assert_eq!(parse_numbers(&tokens, 1, 1), Ok(vec![text("2")]));
    assert_eq!(parse_numbers(&tokens, 0, 3), Err(ParseError::ExpectedNumber { at: 2 }));
    assert_eq!(parse_numbers(&tokens, 3, 2), Err(ParseError::ExpectedNumber { at: 4 }));
    assert_eq!(parse_numbers(&tokens, 4, 1), Err(ParseError::ExpectedNumber { at: 4 }));
    assert_eq!(parse_numbers(&tokens, 4, 0), Ok(vec![]));
}

#[test]
fn mesh_of_vertices_and_faces() {
    let input = "# a triangle\nv 0 0 0\nv 1 0 0\nv 0 1.5 0\n\nf 1 2 3\n";
    assert_eq!(
        mesh(input),
        Ok(vec![
            ObjItem::Vertex(vec![text("0"), text("0"), text("0")]),
            ObjItem::Vertex(vec![text("1"), text("0"), text("0")]),
            ObjItem::Vertex(vec![text("0"), text("1.5"), text("0")]),
            ObjItem::Face(vec![text("1"), text("2"), text("3")]),
        ])
    );
}

#[test]
fn empty_mesh() {
    assert_eq!(mesh(""), Ok(vec![]));
    assert_eq!(mesh("\n# nothing\n"), Ok(vec![]));
}

#[test]
fn mesh_errors() {
    assert_eq!(mesh("vn 0 1 0"), Err(ParseError::UnexpectedToken { at: 0 }));
    assert_eq!(mesh("v 0 1"), Err(ParseError::ExpectedNumber { at: 3 }));
    assert_eq!(mesh("v 0 1\n2"), Err(ParseError::ExpectedNumber { at: 3 }));
    assert_eq!(mesh("f 1 2 x"), Err(ParseError::ExpectedNumber { at: 3 }));
    assert_eq!(mesh("v 0 0 0 0"), Err(ParseError::UnexpectedToken { at: 4 }));
    assert_eq!(mesh("1 2 3"), Err(ParseError::UnexpectedToken { at: 0 }));
    assert_eq!(mesh("{"), Err(ParseError::UnexpectedToken { at: 0 }));
}

#[test]
fn name_of_a_block() {
    let blocks = scene("camera {}\nmaterial { name: a name: b }\nmaterial { color: 1 1 1 }").unwrap();
    assert_eq!(blocks[1].name(FieldKey::Name), text("b"));
    assert_eq!(blocks[2].name(FieldKey::Name), text(""));
    assert_eq!(blocks[1].name(FieldKey::Color), text(""));
}

#[test]
fn material_is_the_first_of_its_name_before_the_object() {
    let input = "\
camera {}
material { name: red }
material { name: blue }
material { name: red }
sphere { mat: red }
sphere { mat: blue }
sphere { mat: green }
material { name: green }
sphere { mat: green }
";
    let blocks = scene(input).unwrap();
    assert_eq!(find_material(&blocks, 4), Some(1));
    assert_eq!(find_material(&blocks, 5), Some(2));
    assert_eq!(find_material(&blocks, 6), None);
    assert_eq!(find_material(&blocks, 8), Some(7));
}

#[test]
fn object_without_material_finds_the_material_without_name() {
    let blocks = scene("camera {}\nmaterial { color: 1 0 0 }\nsphere { radius: 1 }\nsphere { mat: x }").unwrap();
    assert_eq!(find_material(&blocks, 2), Some(1));
    assert_eq!(find_material(&blocks, 3), None);
    assert_eq!(find_material(&blocks, 0), None);
}

#[test]
fn last_value_is_the_latest_of_its_key() {
    let blocks = scene("camera { position: 1 2 3 fov: 9 position: 4 5 6 }").unwrap();
    assert_eq!(blocks[0].last_value(FieldKey::Position), Some(&numbers(&["4", "5", "6"])));
    assert_eq!(blocks[0].last_value(FieldKey::Fov), Some(&numbers(&["9"])));
    assert_eq!(blocks[0].last_value(FieldKey::Rotation), None);
}
