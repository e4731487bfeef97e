use raytracer::api::{
    BookkeepingCommand, GraphicsState, IDENTITY_TRANSFORM, MaterialLib, RenderSetup, SceneState,
    check_render_setup,
};
use raytracer::error::SceneError;

fn missing_component(r: Result<impl std::fmt::Debug, SceneError>) -> String {
    match r {
        Err(SceneError::MissingComponent(msg)) => msg,
        other => panic!("expected a missing component, got {other:?}"),
    }
}

#[test]
fn material_lib_later_registration_wins() {
    let mut lib = MaterialLib::new();
    assert_eq!(lib.get(&"gold".to_string()), None);
    lib.insert("gold".to_string(), 0);
    lib.insert("jade".to_string(), 1);
    lib.insert("gold".to_string(), 2);
    assert_eq!(lib.get(&"gold".to_string()), Some(2));
    assert_eq!(lib.get(&"jade".to_string()), Some(1));
    assert_eq!(lib.get(&"grey".to_string()), None);
    let copy = lib.duplicate();
    assert_eq!(copy.get(&"gold".to_string()), Some(2));
}

#[test]
fn graphics_state_starts_empty() {
    let gs = GraphicsState::new();
    assert_eq!(gs.current_material, None);
    assert_eq!(gs.material_lib.get(&"x".to_string()), None);
}

#[test]
fn objects_need_a_material() {
    let state: SceneState<&str> = SceneState::new();
    assert_eq!(missing_component(state.object_material()), "missing material for object");
}

#[test]
fn materials_become_current_in_order() {
    let mut state = SceneState::new();
    assert_eq!(state.add_material("flat red"), 0);
    assert_eq!(state.object_material().unwrap(), 0);
    assert_eq!(state.add_material("flat blue"), 1);
    assert_eq!(state.object_material().unwrap(), 1);
    assert_eq!(state.materials(), &vec!["flat red", "flat blue"]);
}

#[test]
fn named_materials_are_selected_by_name() {
    let mut state = SceneState::new();
    assert_eq!(state.make_named_material("gold".to_string(), "gold blinn"), 0);
    assert_eq!(state.make_named_material("grey".to_string(), "grey blinn"), 1);
    // Defining a named material does not select it.
    assert_eq!(state.current_material(), None);
    state.use_named_material(&"gold".to_string()).unwrap();
    assert_eq!(state.object_material().unwrap(), 0);
    state.use_named_material(&"grey".to_string()).unwrap();
    assert_eq!(state.object_material().unwrap(), 1);
    // A redefinition replaces what the name refers to.
    assert_eq!(state.make_named_material("gold".to_string(), "new gold"), 2);
    state.use_named_material(&"gold".to_string()).unwrap();
    assert_eq!(state.object_material().unwrap(), 2);
}

#[test]
fn unknown_named_material_is_an_error() {
    let mut state: SceneState<&str> = SceneState::new();
    state.add_material("flat");
    assert_eq!(
        missing_component(state.use_named_material(&"jade".to_string())),
        "material `jade` does not exist"
    );
    // The current material stays.
    assert_eq!(state.object_material().unwrap(), 0);
}

#[test]
fn restoring_the_graphics_state_restores_material_and_transform() {
    let mut state = SceneState::new();
    state.add_material("a");
    state.set_transform(5);
    state.push_graphics_state();
    assert_eq!(state.saved_graphics_states(), 1);
    assert_eq!(state.saved_transforms(), 1);
    state.make_named_material("b".to_string(), "b");
    state.use_named_material(&"b".to_string()).unwrap();
    state.set_transform(9);
    assert_eq!(state.object_material().unwrap(), 1);
    state.pop_graphics_state();
    assert_eq!(state.object_material().unwrap(), 0);
    assert_eq!(state.current_transform(), 5);
    // The name defined inside the block is gone with it.
    assert!(state.use_named_material(&"b".to_string()).is_err());
    assert_eq!(state.saved_graphics_states(), 0);
}

#[test]
fn transforms_are_saved_and_restored_alone() {
    let mut state: SceneState<&str> = SceneState::new();
    assert_eq!(state.current_transform(), IDENTITY_TRANSFORM);
    state.set_transform(3);
    state.push_transform();
    state.reset_transform();
    assert_eq!(state.current_transform(), IDENTITY_TRANSFORM);
    state.add_material("m");
    state.pop_transform();
    assert_eq!(state.current_transform(), 3);
    // The material chosen in between stays.
    assert_eq!(state.object_material().unwrap(), 0);
    assert_eq!(state.saved_transforms(), 0);
}

fn render_message(s: RenderSetup) -> Option<String> {
    match check_render_setup(s) {
        Ok(()) => None,
        Err(SceneError::Render(msg)) => Some(msg),
        Err(other) => panic!("unexpected {other:?}"),
    }
}

#[test]
fn render_setup_names_the_first_missing_part() {
    let all = RenderSetup {
        film: true,
        background: true,
        lookat: true,
        camera: true,
        integrator: true,
        aggregator: true,
    };
    assert_eq!(render_message(all), None);
    assert_eq!(
        render_message(RenderSetup { film: false, camera: false, ..all }).as_deref(),
        Some("cannot render without a film")
    );
    assert_eq!(
        render_message(RenderSetup { background: false, ..all }).as_deref(),
        Some("cannot render without a background")
    );
    assert_eq!(
        render_message(RenderSetup { lookat: false, integrator: false, ..all }).as_deref(),
        Some("cannot render without lookat")
    );
    assert_eq!(
        render_message(RenderSetup { camera: false, ..all }).as_deref(),
        Some("cannot render without a camera")
    );
    assert_eq!(
        render_message(RenderSetup { integrator: false, ..all }).as_deref(),
        Some("cannot render without an integrator")
    );
    assert_eq!(
        render_message(RenderSetup { aggregator: false, ..all }).as_deref(),
        Some("cannot render without an object aggregator")
    );
}

#[test]
fn material_lib_replaces_a_name_in_place() {
    let mut lib = MaterialLib::new();
    lib.insert("a".to_string(), 1);
    lib.insert("b".to_string(), 2);
    lib.insert("a".to_string(), 3);
    lib.insert("a".to_string(), 4);
    assert_eq!(lib.get(&"a".to_string()), Some(4));
    assert_eq!(lib.get(&"b".to_string()), Some(2));
    assert_eq!(lib.get(&"c".to_string()), None);
}

#[test]
fn commands_drive_the_bookkeeping() {
    let mut s: SceneState<&str> = SceneState::new();
    assert!(s.apply_command(BookkeepingCommand::Material("red")).is_ok());
    assert_eq!(s.current_material(), Some(0));
    assert!(s
        .apply_command(BookkeepingCommand::MakeNamedMaterial { name: "gold".to_string(), material: "gold" })
        .is_ok());
    assert_eq!(s.current_material(), Some(0));
    let err = s.apply_command(BookkeepingCommand::NamedMaterial { name: "jade".to_string() });
    assert_eq!(missing_component(err), "material `jade` does not exist");
    assert_eq!(s.current_material(), Some(0));
    assert!(s.apply_command(BookkeepingCommand::NamedMaterial { name: "gold".to_string() }).is_ok());
    assert_eq!(s.current_material(), Some(1));
    assert!(s.apply_command(BookkeepingCommand::SetTransform(7)).is_ok());
    assert_eq!(s.current_transform(), 7);
    assert!(s.apply_command(BookkeepingCommand::ResetTransform).is_ok());
    assert_eq!(s.current_transform(), IDENTITY_TRANSFORM);
}

#[test]
fn a_balanced_block_restores_selection_names_and_transform() {
    let mut s: SceneState<&str> = SceneState::new();
    s.apply_command(BookkeepingCommand::MakeNamedMaterial { name: "a".to_string(), material: "a" }).unwrap();
    s.apply_command(BookkeepingCommand::NamedMaterial { name: "a".to_string() }).unwrap();
    s.apply_command(BookkeepingCommand::SetTransform(3)).unwrap();
    let block = vec![
        BookkeepingCommand::PushGraphicsState,
        BookkeepingCommand::PushTransform,
        BookkeepingCommand::SetTransform(9),
        BookkeepingCommand::MakeNamedMaterial { name: "a".to_string(), material: "b" },
        BookkeepingCommand::NamedMaterial { name: "a".to_string() },
        BookkeepingCommand::PopTransform,
        BookkeepingCommand::PushGraphicsState,
        BookkeepingCommand::Material("c"),
        BookkeepingCommand::PopGraphicsState,
        BookkeepingCommand::PopGraphicsState,
    ];
    for c in block {
        s.apply_command(c).unwrap();
    }
    assert_eq!(s.current_material(), Some(0));
    assert_eq!(s.current_transform(), 3);
    assert_eq!(s.saved_graphics_states(), 0);
    assert_eq!(s.saved_transforms(), 0);
    assert_eq!(s.materials().len(), 3);
    s.apply_command(BookkeepingCommand::NamedMaterial { name: "a".to_string() }).unwrap();
    assert_eq!(s.current_material(), Some(0));
}
