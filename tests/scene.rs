use raytracer_rust::scene::{
    parse_directive, Keyword, LightKind, ParseError, ParsedConfigState, PrimitiveKind, SceneFile,
};

fn b(s: &str) -> Vec<u8> {
    s.as_bytes().to_vec()
}

fn fields(s: &[&str]) -> Vec<Vec<u8>> {
    s.iter().map(|f| b(f)).collect()
}

fn load(text: &str) -> Result<SceneFile, ParseError> {
    let mut state = ParsedConfigState::new();
    let mut scene = SceneFile::new();
    for line in text.lines() {
        state.parse_line(line, &mut scene)?;
    }
    Ok(scene)
}

#[test]
fn test_parse_size() {
    let parsed_config = ParsedConfigState::new();
    let (width, height) = parsed_config.parse_size("1920 1080").unwrap();
    assert_eq!(width, 1920);
    assert_eq!(height, 1080);
}

#[test]
fn test_parse_output() {
    let parsed_config = ParsedConfigState::new();
    let output_file = parsed_config.parse_output("final.png").unwrap();
    assert_eq!(output_file, b("final.png"));
}

#[test]
fn parse_size_errors() {
    let st = ParsedConfigState::new();
    assert_eq!(st.parse_size("1920"), Err(ParseError::WrongFieldCount(Keyword::Size)));
    assert_eq!(st.parse_size("1920  1080"), Err(ParseError::WrongFieldCount(Keyword::Size)));
    assert_eq!(st.parse_size("19x0 1080"), Err(ParseError::BadInteger(Keyword::Size)));
    assert_eq!(st.parse_size("-1 1080"), Err(ParseError::BadInteger(Keyword::Size)));
    assert_eq!(st.parse_size("4294967296 2"), Err(ParseError::BadInteger(Keyword::Size)));
    assert_eq!(st.parse_size("0 1080"), Err(ParseError::ZeroSize));
    assert_eq!(st.parse_size("4294967295 +7"), Ok((4294967295, 7)));
}

#[test]
fn parse_output_trims_and_refuses_empty() {
    let st = ParsedConfigState::new();
    assert_eq!(st.parse_output("  out dir/a.png \r"), Ok(b("out dir/a.png")));
    assert_eq!(st.parse_output(" \t "), Err(ParseError::EmptyOutput));
}

#[test]
fn blank_and_comment_lines_are_ignored() {
    assert_eq!(parse_directive(b""), Ok(None));
    assert_eq!(parse_directive(b"   \t\r"), Ok(None));
    assert_eq!(parse_directive(b"# size 1 1"), Ok(None));
    assert_eq!(parse_directive(b"   # a comment"), Ok(None));
}

#[test]
fn unknown_keyword_is_refused() {
    assert_eq!(
        parse_directive(b"cube 1 2 3"),
        Err(ParseError::UnknownDirective(b("cube")))
    );
    assert_eq!(
        parse_directive(b"Sphere 0 0 0 1"),
        Err(ParseError::UnknownDirective(b("Sphere")))
    );
}

#[test]
fn directive_keeps_numeric_fields_as_written() {
    let d = parse_directive(b"sphere 0.5 -1 2e3 1.0\r").unwrap().unwrap();
    assert_eq!(d.keyword, Keyword::Sphere);
    assert_eq!(d.fields, fields(&["0.5", "-1", "2e3", "1.0"]));
    assert!(d.values.is_empty());
}

#[test]
fn directive_parses_integer_fields() {
    let d = parse_directive(b"tri 0 +1 2").unwrap().unwrap();
    assert_eq!(d.keyword, Keyword::Tri);
    assert_eq!(d.values, vec![0, 1, 2]);
    let d = parse_directive(b"maxdepth 3").unwrap().unwrap();
    assert_eq!(d.values, vec![3]);
    assert_eq!(
        parse_directive(b"maxdepth 3 4"),
        Err(ParseError::WrongFieldCount(Keyword::MaxDepth))
    );
    assert_eq!(
        parse_directive(b"maxverts x"),
        Err(ParseError::BadInteger(Keyword::MaxVerts))
    );
}

#[test]
fn directive_checks_field_counts() {
    assert_eq!(
        parse_directive(b"camera 0 0 5 0 0 0 0 1 0"),
        Err(ParseError::WrongFieldCount(Keyword::Camera))
    );
    assert_eq!(
        parse_directive(b"point 5 5 5 1 1"),
        Err(ParseError::WrongFieldCount(Keyword::Point))
    );
    assert_eq!(parse_directive(b"size"), Err(ParseError::WrongFieldCount(Keyword::Size)));
    assert_eq!(parse_directive(b"output"), Err(ParseError::EmptyOutput));
}

#[test]
fn initial_scene_has_the_defaults() {
    let sc = SceneFile::new();
    assert_eq!((sc.width, sc.height), (800, 600));
    assert_eq!(sc.output_file, b("output.png"));
    assert_eq!(sc.camera, fields(&["0", "0", "0", "0", "0", "1", "0", "1", "0", "60"]));
    assert_eq!(sc.ambient, fields(&["0", "0", "0"]));
    assert_eq!((sc.maxdepth, sc.maxverts), (1, 0));
    assert!(sc.primitives.is_empty() && sc.lights.is_empty());
}

#[test]
fn vertex_pool_is_bounded_by_maxverts() {
    assert_eq!(load("vertex 0 0 0").unwrap_err(), ParseError::TooManyVertices);
    assert!(load("maxverts 2\nvertex 0 0 0\nvertex 1 0 0").is_ok());
    assert_eq!(
        load("maxverts 2\nvertex 0 0 0\nvertex 1 0 0\nvertex 0 1 0").unwrap_err(),
        ParseError::TooManyVertices
    );
}

#[test]
fn triangle_indices_must_name_pool_vertices() {
    let text = "maxverts 3\nvertex 0 0 0\nvertex 1 0 0\ntri 0 1 2";
    assert_eq!(load(text).unwrap_err(), ParseError::VertexIndexOutOfBounds);
}

#[test]
fn triangle_copies_its_vertices_and_the_material() {
    let text = "maxverts 3\nvertex 0 0 0\nvertex 1 0 0\nvertex 0 1 0\n\
                diffuse 0.5 0 0\nshininess 8\ntri 2 0 1";
    let sc = load(text).unwrap();
    assert_eq!(sc.primitives.len(), 1);
    let t = &sc.primitives[0];
    assert_eq!(t.kind, PrimitiveKind::Triangle);
    assert_eq!(t.fields, fields(&["0", "1", "0", "0", "0", "0", "1", "0", "0"]));
    assert_eq!(t.material.diffuse, fields(&["0.5", "0", "0"]));
    assert_eq!(t.material.specular, fields(&["0", "0", "0"]));
    assert_eq!(t.material.shininess, b("8"));
}

#[test]
fn material_applies_to_later_primitives_only() {
    let text = "sphere 0 0 0 1\ndiffuse 0.8 0 0\nsphere 1 1 1 2";
    let sc = load(text).unwrap();
    assert_eq!(sc.primitives[0].material.diffuse, fields(&["0", "0", "0"]));
    assert_eq!(sc.primitives[1].material.diffuse, fields(&["0.8", "0", "0"]));
}

#[test]
fn failed_line_leaves_the_scene_unchanged() {
    let mut state = ParsedConfigState::new();
    let mut scene = SceneFile::new();
    state.parse_line("size 10 20", &mut scene).unwrap();
    assert!(state.parse_line("size 0 5", &mut scene).is_err());
    assert_eq!((scene.width, scene.height), (10, 20));
    assert!(state.parse_line("tri 0 0 0", &mut scene).is_err());
    assert!(scene.primitives.is_empty());
}

// The scenario scenes of the renderer, read as far as the grammar goes.

const RED_SPHERE: &str = "size 200 200\n\
    camera 0 0 5 0 0 0 0 1 0 45\n\
    ambient 0.1 0.1 0.1\n\
    diffuse 0.8 0 0\n\
    sphere 0 0 0 1\n";

#[test]
fn scenario_ambient_only_sphere() {
    let sc = load(RED_SPHERE).unwrap();
    assert_eq!((sc.width, sc.height), (200, 200));
    assert_eq!(sc.camera, fields(&["0", "0", "5", "0", "0", "0", "0", "1", "0", "45"]));
    assert_eq!(sc.ambient, fields(&["0.1", "0.1", "0.1"]));
    assert_eq!(sc.primitives.len(), 1);
    assert_eq!(sc.primitives[0].kind, PrimitiveKind::Sphere);
    assert_eq!(sc.primitives[0].fields, fields(&["0", "0", "0", "1"]));
    assert!(sc.lights.is_empty());
}

#[test]
fn scenario_diffuse_sphere_with_point_light() {
    let text = format!("{RED_SPHERE}point 5 5 5 1 1 1\n");
    let sc = load(&text).unwrap();
    assert_eq!(sc.lights.len(), 1);
    assert_eq!(sc.lights[0].kind, LightKind::Point);
    assert_eq!(sc.lights[0].fields, fields(&["5", "5", "5", "1", "1", "1"]));
}

#[test]
fn scenario_specular_highlight() {
    let text = "size 200 200\ncamera 0 0 5 0 0 0 0 1 0 45\nambient 0.1 0.1 0.1\n\
                diffuse 0.8 0 0\nspecular 0.4 0.4 0.4\nshininess 32\nsphere 0 0 0 1\n\
                point 5 5 5 1 1 1\n";
    let sc = load(text).unwrap();
    let m = &sc.primitives[0].material;
    assert_eq!(m.specular, fields(&["0.4", "0.4", "0.4"]));
    assert_eq!(m.shininess, b("32"));
}

#[test]
fn scenario_shadowing_spheres() {
    let text = "size 200 200\ncamera 0 0 10 0 0 0 0 1 0 45\npoint 10 0 0 1 1 1\n\
                diffuse 0.5 0.5 0.5\nsphere 3 0 0 1.5\nsphere -1 0 0 0.5\n";
    let sc = load(text).unwrap();
    assert_eq!(sc.primitives.len(), 2);
    assert_eq!(sc.primitives[0].fields, fields(&["3", "0", "0", "1.5"]));
    assert_eq!(sc.primitives[1].fields, fields(&["-1", "0", "0", "0.5"]));
}

#[test]
fn scenario_mirrored_spheres() {
    let text = "size 200 200\nmaxdepth 3\nspecular 0.8 0.8 0.8\nshininess 64\n\
                sphere -1.2 0 0 1\nsphere 1.2 0 0 1\npoint 0 5 5 1 1 1\n";
    let sc = load(text).unwrap();
    assert_eq!(sc.maxdepth, 3);
    for p in &sc.primitives {
        assert_eq!(p.material.specular, fields(&["0.8", "0.8", "0.8"]));
        assert_eq!(p.material.shininess, b("64"));
    }
}

#[test]
fn scenario_triangle_over_ground_plane() {
    let text = "# a triangle above a ground plane\n\nsize 160 120\nmaxverts 3\n\
                vertex -1 0.5 0\nvertex 1 0.5 0\nvertex 0 1.5 0\ndiffuse 0 0.6 0\ntri 0 1 2\n\
                diffuse 0.7 0.7 0.7\nplane 0 0 0 0 1 0\ndirectional 0 1 0 1 1 1\n";
    let sc = load(text).unwrap();
    assert_eq!(sc.primitives.len(), 2);
    assert_eq!(sc.primitives[0].kind, PrimitiveKind::Triangle);
    assert_eq!(sc.primitives[1].kind, PrimitiveKind::Plane);
    assert_eq!(sc.primitives[1].fields, fields(&["0", "0", "0", "0", "1", "0"]));
    assert_eq!(sc.lights[0].kind, LightKind::Directional);
}
