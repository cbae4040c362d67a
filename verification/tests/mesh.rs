use glam::{Mat4, Quat, Vec3};
use pocket3d::mesh::Skin;
use pocket3d::model::palette_from_globals;

fn globals() -> Vec<Mat4> {
    let root = Mat4::from_rotation_translation(
        Quat::from_rotation_x(0.2),
        Vec3::new(0.5, 0.0, 0.0),
    );
    let middle = root * Mat4::from_translation(Vec3::Y);
    let leaf = middle * Mat4::from_translation(Vec3::Z);
    vec![root, middle, leaf]
}

fn skins() -> Vec<Skin<Mat4>> {
    vec![
        Skin {
            joints: vec![2, 0],
            inverse_bind: vec![
                Mat4::from_rotation_translation(Quat::from_rotation_y(0.3), Vec3::X),
                Mat4::from_translation(Vec3::Y),
            ],
        },
        Skin {
            joints: vec![1],
            inverse_bind: vec![Mat4::from_translation(Vec3::Z)],
        },
    ]
}

#[test]
fn matrices_keep_joint_and_skin_order_with_model_outside_bind() {
    let globals = globals();
    let skins = skins();
    let palette: Vec<Mat4> = skins
        .iter()
        .flat_map(|skin| skin.matrices(&globals, None, |a, b| a * b))
        .collect();
    assert_eq!(palette.len(), 3);
    assert_eq!(palette[0], globals[2] * skins[0].inverse_bind[0]);
    assert_eq!(palette[1], globals[0] * skins[0].inverse_bind[1]);
    assert_eq!(palette[2], globals[1] * skins[1].inverse_bind[0]);

    let model =
        Mat4::from_rotation_translation(Quat::from_rotation_z(0.4), Vec3::new(3.0, -1.0, 2.0));
    for (joint, matrix) in skins[0]
        .matrices(&globals, Some(model), |a, b| a * b)
        .into_iter()
        .enumerate()
    {
        assert_eq!(
            matrix,
            (model * globals[skins[0].joints[joint]]) * skins[0].inverse_bind[joint]
        );
    }
}

#[test]
fn palettes_concatenate_skins_and_are_never_empty() {
    let globals = globals();
    let skins = skins();
    let palette = palette_from_globals(&skins, &globals, Mat4::IDENTITY, |a, b| a * b);
    assert_eq!(palette.len(), 3);
    assert_eq!(palette[2], globals[1] * skins[1].inverse_bind[0]);
    let none: Vec<Skin<Mat4>> = Vec::new();
    assert_eq!(
        palette_from_globals(&none, &globals, Mat4::IDENTITY, |a, b| a * b),
        vec![Mat4::IDENTITY]
    );
}
