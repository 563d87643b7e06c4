# gdpm

A Godot project manager: it registers and installs Godot engine versions,
opens projects with the engine they are associated with, scaffolds new
projects, and manages plugin dependencies recorded in `project.godot`.

The library in `src/` is verified with Verus; `app/` is the command-line
program around it.

- `settings`: configuration files as sections of keyed values, with the
  laws of setting and removing properties.
- `types`: Godot versions, kinds and systems, how they are written and read.
- `engine`: the engines registered in the global configuration, the default
  engine, and the laws of registering and unregistering.
- `project`, `plugins`: what `project.godot` says of a project and of its
  dependencies, and how plugins become dependencies.
- `commands`: what each command decides between the questions it asks and
  the processes it starts.
- `downloader`: the official mirror's archive URLs and the scan of its
  listings; `remote`: the cache of the versions found there.
- `install`, `scaffolder`, `config`, `paths`: where installations, new
  projects and configurations go.

The settings text itself is read and written by the `gdsettings_parser`
crate, in `app/`.
