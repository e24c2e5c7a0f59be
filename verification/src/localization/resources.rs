//! The translation files compiled into the program.

use vstd::prelude::*;

verus! {

/// The English translations.
pub const EN_XML: &'static str = "<?xml version='1.0' encoding='UTF-8'?>\n\
    <resources>\n\
    <string name='app.title'>Tidy Cleaner</string>\n\
    <string name='nav.dashboard'>Dashboard</string>\n\
    <string name='nav.cleanup'>Cleanup</string>\n\
    <string name='nav.applications'>Applications</string>\n\
    <string name='nav.startup'>Startup</string>\n\
    <string name='nav.settings'>Settings</string>\n\
    <string name='common.loading'>Loading...</string>\n\
    <string name='common.save'>Save</string>\n\
    <string name='common.cancel'>Cancel</string>\n\
    <string name='common.close'>Close</string>\n\
    <string name='common.search'>Search</string>\n\
    <string name='common.refresh'>Refresh</string>\n\
    <string name='common.all'>All</string>\n\
    <string name='common.enabled'>Enabled</string>\n\
    <string name='common.disabled'>Disabled</string>\n\
    <string name='common.status'>Status</string>\n\
    <string name='common.total'>Total</string>\n\
    <string name='common.used'>Used</string>\n\
    <string name='common.free'>Free</string>\n\
    <string name='common.open'>Open</string>\n\
    <string name='common.delete'>Delete</string>\n\
    <string name='common.version'>Version</string>\n\
    <string name='common.total_items'>Total items</string>\n\
    <string name='dashboard.title'>Dashboard</string>\n\
    <string name='dashboard.subtitle'>Real-time system overview</string>\n\
    <string name='dashboard.cpu_usage'>CPU Usage</string>\n\
    <string name='dashboard.cpu_cores'>Cores</string>\n\
    <string name='dashboard.cpu_freq'>Frequency</string>\n\
    <string name='dashboard.ram_usage'>RAM Usage</string>\n\
    <string name='dashboard.ram_used'>Used</string>\n\
    <string name='dashboard.ram_available'>Available</string>\n\
    <string name='dashboard.disks'>Disks</string>\n\
    <string name='dashboard.system_info'>System Information</string>\n\
    <string name='dashboard.system_overview'>System Overview</string>\n\
    <string name='dashboard.os'>Operating System</string>\n\
    <string name='dashboard.os_label'>OS</string>\n\
    <string name='dashboard.kernel'>Kernel</string>\n\
    <string name='dashboard.kernel_label'>Kernel</string>\n\
    <string name='dashboard.arch'>Architecture</string>\n\
    <string name='dashboard.hostname'>Hostname</string>\n\
    <string name='dashboard.host_label'>Host</string>\n\
    <string name='dashboard.uptime'>Uptime</string>\n\
    <string name='dashboard.uptime_label'>Uptime</string>\n\
    <string name='dashboard.temperature'>Temperature</string>\n\
    <string name='dashboard.cpu_temp'>CPU Temperature</string>\n\
    <string name='dashboard.gpu_temp'>GPU Temperature</string>\n\
    <string name='dashboard.temp_high'>High</string>\n\
    <string name='dashboard.temp_optimal'>Optimal</string>\n\
    <string name='dashboard.storage_primary'>Primary Storage</string>\n\
    <string name='dashboard.storage_secondary'>Secondary Storage</string>\n\
    <string name='dashboard.storage_used'>Used</string>\n\
    <string name='dashboard.storage_free'>Free</string>\n\
    <string name='dashboard.storage_total'>Total</string>\n\
    <string name='dashboard.storage_filesystem'>File system</string>\n\
    <string name='dashboard.cores_label'>cores</string>\n\
    <string name='cleanup.title'>Cleanup</string>\n\
    <string name='cleanup.subtitle'>Free up disk space safely</string>\n\
    <string name='cleanup.fast_scan'>Fast Scan</string>\n\
    <string name='cleanup.full_scan'>Full Scan</string>\n\
    <string name='cleanup.scan_start'>Start Scan</string>\n\
    <string name='cleanup.clean_selected'>Clean Selected</string>\n\
    <string name='cleanup.select_all'>Select All</string>\n\
    <string name='cleanup.deselect_all'>Deselect All</string>\n\
    <string name='cleanup.empty_title'>Nothing scanned yet</string>\n\
    <string name='cleanup.empty_desc'>Run a scan to find files that can be removed</string>\n\
    <string name='cleanup.scanning'>Scanning...</string>\n\
    <string name='cleanup.cleaning'>Cleaning...</string>\n\
    <string name='cleanup.status_scanning'>Scanning files</string>\n\
    <string name='cleanup.status_preparing'>Preparing</string>\n\
    <string name='cleanup.cancel'>Cancel</string>\n\
    <string name='cleanup.clean_done'>Cleanup complete</string>\n\
    <string name='cleanup.clean_done_desc'>Selected files were removed</string>\n\
    <string name='cleanup.clean_selected_btn'>Clean</string>\n\
    <string name='cleanup.items_found'>Items found</string>\n\
    <string name='cleanup.reclaimable'>Reclaimable</string>\n\
    <string name='cleanup.selected'>Selected</string>\n\
    <string name='cleanup.nothing_found_title'>Your system is clean</string>\n\
    <string name='cleanup.nothing_found_desc'>No removable files were found</string>\n\
    <string name='cleanup.risk.safe'>Safe</string>\n\
    <string name='cleanup.risk.warning'>Warning</string>\n\
    <string name='cleanup.risk.dangerous'>Dangerous</string>\n\
    <string name='cleanup.confirm_title'>Confirm cleanup</string>\n\
    <string name='cleanup.confirm_desc'>The selected items will be permanently deleted</string>\n\
    <string name='cleanup.confirm_count_label'>Items</string>\n\
    <string name='cleanup.confirm_size_label'>Size</string>\n\
    <string name='applications.title'>Applications</string>\n\
    <string name='applications.subtitle'>Manage installed applications</string>\n\
    <string name='applications.search_placeholder'>Search applications...</string>\n\
    <string name='applications.filter_all'>All</string>\n\
    <string name='applications.uninstall_selected'>Uninstall Selected</string>\n\
    <string name='applications.uninstalling'>Uninstalling...</string>\n\
    <string name='applications.status_preparing'>Preparing</string>\n\
    <string name='applications.confirm_uninstall_title'>Confirm uninstall</string>\n\
    <string name='applications.confirm_uninstall_desc'>The selected applications will be removed</string>\n\
    <string name='applications.selected_for_uninstall'>Selected for removal</string>\n\
    <string name='applications.uninstall_btn'>Uninstall</string>\n\
    <string name='applications.shortcut_created'>Shortcut created</string>\n\
    <string name='applications.empty_title'>No applications found</string>\n\
    <string name='applications.empty_desc'>Try another search or filter</string>\n\
    <string name='startup.title'>Startup</string>\n\
    <string name='startup.subtitle'>Applications that start with your session</string>\n\
    <string name='startup.add_app'>Add Application</string>\n\
    <string name='startup.empty_title'>No startup entries</string>\n\
    <string name='startup.empty_desc'>Add an application to start it automatically</string>\n\
    <string name='startup.source_user'>User</string>\n\
    <string name='startup.source_system'>System</string>\n\
    <string name='startup.enabled'>Enabled</string>\n\
    <string name='startup.disabled'>Disabled</string>\n\
    <string name='startup.add_modal_title'>New startup entry</string>\n\
    <string name='startup.field_name'>Name</string>\n\
    <string name='startup.field_name_placeholder'>Application name</string>\n\
    <string name='startup.field_exec'>Command</string>\n\
    <string name='startup.field_exec_placeholder'>/usr/bin/app --flag</string>\n\
    <string name='startup.field_comment'>Comment</string>\n\
    <string name='startup.field_comment_placeholder'>Optional description</string>\n\
    <string name='startup.field_terminal'>Run in terminal</string>\n\
    <string name='startup.save_btn'>Save</string>\n\
    <string name='startup.confirm_remove_title'>Remove startup entry</string>\n\
    <string name='startup.confirm_remove_desc'>This entry will no longer start automatically</string>\n\
    <string name='startup.remove_btn'>Remove</string>\n\
    <string name='tooltip.remove_startup'>Remove from startup</string>\n\
    <string name='tooltip.toggle_startup'>Enable or disable</string>\n\
    <string name='settings.title'>Settings</string>\n\
    <string name='settings.subtitle'>Application preferences</string>\n\
    <string name='settings.appearance'>Appearance</string>\n\
    <string name='settings.theme'>Theme</string>\n\
    <string name='settings.theme_dark'>Dark</string>\n\
    <string name='settings.theme_light'>Light</string>\n\
    <string name='settings.theme_system'>System</string>\n\
    <string name='settings.language'>Language</string>\n\
    <string name='settings.startup_section'>Startup</string>\n\
    <string name='settings.autostart'>Start with system</string>\n\
    <string name='settings.start_minimized'>Start minimized</string>\n\
    <string name='settings.start_in_tray'>Start in tray</string>\n\
    <string name='settings.cleanup_section'>Cleanup</string>\n\
    <string name='settings.confirm_delete'>Confirm before deleting</string>\n\
    <string name='settings.show_hidden'>Show hidden files</string>\n\
    <string name='settings.include_downloads'>Include Downloads folder</string>\n\
    <string name='settings.disks_section'>Disks</string>\n\
    <string name='settings.disks_desc'>Disks shown on the dashboard</string>\n\
    <string name='settings.add_custom_mount'>Add mount point</string>\n\
    <string name='settings.custom_mount_placeholder'>/mnt/data</string>\n\
    <string name='settings.notifications_section'>Notifications</string>\n\
    <string name='settings.notify_scan'>Notify when a scan finishes</string>\n\
    <string name='settings.notify_cleanup'>Notify when cleanup finishes</string>\n\
    <string name='settings.updates_section'>Updates</string>\n\
    <string name='settings.check_updates'>Check for updates</string>\n\
    <string name='settings.updates_latest'>You have the latest version</string>\n\
    <string name='settings.updates_checking'>Checking...</string>\n\
    <string name='settings.about'>About</string>\n\
    <string name='settings.version_label'>Version</string>\n\
    <string name='settings.open_logs'>Open logs</string>\n\
    <string name='tooltip.open_app'>Open application</string>\n\
    <string name='tooltip.create_shortcut'>Create desktop shortcut</string>\n\
    <string name='tooltip.uninstall_app'>Uninstall application</string>\n\
    <string name='tooltip.open_folder'>Open folder</string>\n\
    <string name='cleanup.rule.thumbnails'>Thumbnails</string>\n\
    <string name='cleanup.rule.thumbnails.desc'>Cached image previews</string>\n\
    <string name='cleanup.rule.firefox'>Firefox cache</string>\n\
    <string name='cleanup.rule.firefox.desc'>Temporary files of the Firefox browser</string>\n\
    <string name='cleanup.rule.chrome'>Chrome cache</string>\n\
    <string name='cleanup.rule.chrome.desc'>Temporary files of Google Chrome</string>\n\
    <string name='cleanup.rule.chromium'>Chromium cache</string>\n\
    <string name='cleanup.rule.chromium.desc'>Temporary files of Chromium</string>\n\
    <string name='cleanup.rule.brave'>Brave cache</string>\n\
    <string name='cleanup.rule.brave.desc'>Temporary files of the Brave browser</string>\n\
    <string name='cleanup.rule.edge'>Edge cache</string>\n\
    <string name='cleanup.rule.edge.desc'>Temporary files of Microsoft Edge</string>\n\
    <string name='cleanup.rule.opera'>Opera cache</string>\n\
    <string name='cleanup.rule.opera.desc'>Temporary files of Opera</string>\n\
    <string name='cleanup.rule.vivaldi'>Vivaldi cache</string>\n\
    <string name='cleanup.rule.vivaldi.desc'>Temporary files of Vivaldi</string>\n\
    <string name='cleanup.rule.trash'>Trash</string>\n\
    <string name='cleanup.rule.trash.desc'>Files moved to the trash</string>\n\
    <string name='cleanup.rule.discord'>Discord cache</string>\n\
    <string name='cleanup.rule.discord.desc'>Cached media of Discord</string>\n\
    <string name='cleanup.rule.telegram'>Telegram cache</string>\n\
    <string name='cleanup.rule.telegram.desc'>Cached media of Telegram Desktop</string>\n\
    <string name='cleanup.rule.spotify'>Spotify cache</string>\n\
    <string name='cleanup.rule.spotify.desc'>Cached songs of Spotify</string>\n\
    <string name='cleanup.rule.steam'>Steam shader cache</string>\n\
    <string name='cleanup.rule.steam.desc'>Precompiled shaders of Steam games</string>\n\
    <string name='cleanup.rule.yay'>Yay cache</string>\n\
    <string name='cleanup.rule.yay.desc'>Downloaded AUR packages of yay</string>\n\
    <string name='cleanup.rule.paru'>Paru cache</string>\n\
    <string name='cleanup.rule.paru.desc'>Downloaded AUR packages of paru</string>\n\
    <string name='cleanup.rule.flatpak'>Flatpak cache</string>\n\
    <string name='cleanup.rule.flatpak.desc'>Temporary Flatpak data</string>\n\
    <string name='cleanup.rule.cargo'>Cargo cache</string>\n\
    <string name='cleanup.rule.cargo.desc'>Package cache of Rust's Cargo</string>\n\
    <string name='cleanup.rule.npm'>npm cache</string>\n\
    <string name='cleanup.rule.npm.desc'>Package cache of npm</string>\n\
    <string name='cleanup.rule.pip'>pip cache</string>\n\
    <string name='cleanup.rule.pip.desc'>Package cache of pip</string>\n\
    <string name='cleanup.rule.gobuild'>Go build cache</string>\n\
    <string name='cleanup.rule.gobuild.desc'>Build artifacts of the Go toolchain</string>\n\
    <string name='cleanup.rule.downloads'>Downloads</string>\n\
    <string name='cleanup.rule.downloads.desc'>Files in your downloads folder</string>\n\
    <string name='cleanup.rule.vscode'>VS Code cache</string>\n\
    <string name='cleanup.rule.vscode.desc'>Temporary files of Visual Studio Code</string>\n\
    <string name='cleanup.rule.jetbrains'>JetBrains cache</string>\n\
    <string name='cleanup.rule.jetbrains.desc'>Caches of JetBrains IDEs</string>\n\
    <string name='cleanup.rule.shaders'>GPU shader cache</string>\n\
    <string name='cleanup.rule.shaders.desc'>Compiled Mesa shaders</string>\n\
    <string name='cleanup.rule.coredumps'>Crash dumps</string>\n\
    <string name='cleanup.rule.coredumps.desc'>Core dumps kept by systemd</string>\n\
    </resources>\n";

/// The Russian translations.
pub const RU_XML: &'static str = "<?xml version='1.0' encoding='UTF-8'?>\n\
    <resources>\n\
    <string name='app.title'>Tidy Cleaner</string>\n\
    <string name='nav.dashboard'>Мониторинг</string>\n\
    <string name='nav.cleanup'>Очистка</string>\n\
    <string name='nav.applications'>Приложения</string>\n\
    <string name='nav.startup'>Автозагрузка</string>\n\
    <string name='nav.settings'>Настройки</string>\n\
    <string name='common.loading'>Загрузка...</string>\n\
    <string name='common.save'>Сохранить</string>\n\
    <string name='common.cancel'>Отмена</string>\n\
    <string name='common.close'>Закрыть</string>\n\
    <string name='common.search'>Поиск</string>\n\
    <string name='common.refresh'>Обновить</string>\n\
    <string name='common.all'>Все</string>\n\
    <string name='common.enabled'>Включено</string>\n\
    <string name='common.disabled'>Выключено</string>\n\
    <string name='common.status'>Статус</string>\n\
    <string name='common.total'>Всего</string>\n\
    <string name='common.used'>Занято</string>\n\
    <string name='common.free'>Свободно</string>\n\
    <string name='common.open'>Открыть</string>\n\
    <string name='common.delete'>Удалить</string>\n\
    <string name='common.version'>Версия</string>\n\
    <string name='common.total_items'>Всего элементов</string>\n\
    <string name='dashboard.title'>Мониторинг</string>\n\
    <string name='dashboard.subtitle'>Обзор системы в реальном времени</string>\n\
    <string name='dashboard.cpu_usage'>Загрузка ЦП</string>\n\
    <string name='dashboard.cpu_cores'>Ядра</string>\n\
    <string name='dashboard.cpu_freq'>Частота</string>\n\
    <string name='dashboard.ram_usage'>Использование ОЗУ</string>\n\
    <string name='dashboard.ram_used'>Занято</string>\n\
    <string name='dashboard.ram_available'>Доступно</string>\n\
    <string name='dashboard.disks'>Диски</string>\n\
    <string name='dashboard.system_info'>Информация о системе</string>\n\
    <string name='dashboard.system_overview'>Обзор системы</string>\n\
    <string name='dashboard.os'>Операционная система</string>\n\
    <string name='dashboard.os_label'>ОС</string>\n\
    <string name='dashboard.kernel'>Ядро</string>\n\
    <string name='dashboard.kernel_label'>Ядро</string>\n\
    <string name='dashboard.arch'>Архитектура</string>\n\
    <string name='dashboard.hostname'>Имя хоста</string>\n\
    <string name='dashboard.host_label'>Хост</string>\n\
    <string name='dashboard.uptime'>Время работы</string>\n\
    <string name='dashboard.uptime_label'>Аптайм</string>\n\
    <string name='dashboard.temperature'>Температура</string>\n\
    <string name='dashboard.cpu_temp'>Температура ЦП</string>\n\
    <string name='dashboard.gpu_temp'>Температура ГП</string>\n\
    <string name='dashboard.temp_high'>Высокая</string>\n\
    <string name='dashboard.temp_optimal'>Оптимальная</string>\n\
    <string name='dashboard.storage_primary'>Основной накопитель</string>\n\
    <string name='dashboard.storage_secondary'>Дополнительный накопитель</string>\n\
    <string name='dashboard.storage_used'>Занято</string>\n\
    <string name='dashboard.storage_free'>Свободно</string>\n\
    <string name='dashboard.storage_total'>Всего</string>\n\
    <string name='dashboard.storage_filesystem'>Файловая система</string>\n\
    <string name='dashboard.cores_label'>ядер</string>\n\
    <string name='cleanup.title'>Очистка</string>\n\
    <string name='cleanup.subtitle'>Безопасное освобождение места на диске</string>\n\
    <string name='cleanup.fast_scan'>Быстрое сканирование</string>\n\
    <string name='cleanup.full_scan'>Полное сканирование</string>\n\
    <string name='cleanup.scan_start'>Начать сканирование</string>\n\
    <string name='cleanup.clean_selected'>Очистить выбранное</string>\n\
    <string name='cleanup.select_all'>Выбрать все</string>\n\
    <string name='cleanup.deselect_all'>Снять выделение</string>\n\
    <string name='cleanup.empty_title'>Сканирование ещё не выполнялось</string>\n\
    <string name='cleanup.empty_desc'>Запустите сканирование, чтобы найти файлы для удаления</string>\n\
    <string name='cleanup.scanning'>Сканирование...</string>\n\
    <string name='cleanup.cleaning'>Очистка...</string>\n\
    <string name='cleanup.status_scanning'>Сканирование файлов</string>\n\
    <string name='cleanup.status_preparing'>Подготовка</string>\n\
    <string name='cleanup.cancel'>Отмена</string>\n\
    <string name='cleanup.clean_done'>Очистка завершена</string>\n\
    <string name='cleanup.clean_done_desc'>Выбранные файлы удалены</string>\n\
    <string name='cleanup.clean_selected_btn'>Очистить</string>\n\
    <string name='cleanup.items_found'>Найдено элементов</string>\n\
    <string name='cleanup.reclaimable'>Можно освободить</string>\n\
    <string name='cleanup.selected'>Выбрано</string>\n\
    <string name='cleanup.nothing_found_title'>Система чиста</string>\n\
    <string name='cleanup.nothing_found_desc'>Файлы для удаления не найдены</string>\n\
    <string name='cleanup.risk.safe'>Безопасно</string>\n\
    <string name='cleanup.risk.warning'>Внимание</string>\n\
    <string name='cleanup.risk.dangerous'>Опасно</string>\n\
    <string name='cleanup.confirm_title'>Подтвердите очистку</string>\n\
    <string name='cleanup.confirm_desc'>Выбранные элементы будут удалены безвозвратно</string>\n\
    <string name='cleanup.confirm_count_label'>Элементов</string>\n\
    <string name='cleanup.confirm_size_label'>Размер</string>\n\
    <string name='applications.title'>Приложения</string>\n\
    <string name='applications.subtitle'>Управление установленными приложениями</string>\n\
    <string name='applications.search_placeholder'>Поиск приложений...</string>\n\
    <string name='applications.filter_all'>Все</string>\n\
    <string name='applications.uninstall_selected'>Удалить выбранные</string>\n\
    <string name='applications.uninstalling'>Удаление...</string>\n\
    <string name='applications.status_preparing'>Подготовка</string>\n\
    <string name='applications.confirm_uninstall_title'>Подтвердите удаление</string>\n\
    <string name='applications.confirm_uninstall_desc'>Выбранные приложения будут удалены</string>\n\
    <string name='applications.selected_for_uninstall'>Выбрано для удаления</string>\n\
    <string name='applications.uninstall_btn'>Удалить</string>\n\
    <string name='applications.shortcut_created'>Ярлык создан</string>\n\
    <string name='applications.empty_title'>Приложения не найдены</string>\n\
    <string name='applications.empty_desc'>Попробуйте другой запрос или фильтр</string>\n\
    <string name='startup.title'>Автозагрузка</string>\n\
    <string name='startup.subtitle'>Приложения, запускаемые вместе с сеансом</string>\n\
    <string name='startup.add_app'>Добавить приложение</string>\n\
    <string name='startup.empty_title'>Нет записей автозагрузки</string>\n\
    <string name='startup.empty_desc'>Добавьте приложение для автоматического запуска</string>\n\
    <string name='startup.source_user'>Пользователь</string>\n\
    <string name='startup.source_system'>Система</string>\n\
    <string name='startup.enabled'>Включено</string>\n\
    <string name='startup.disabled'>Выключено</string>\n\
    <string name='startup.add_modal_title'>Новая запись автозагрузки</string>\n\
    <string name='startup.field_name'>Название</string>\n\
    <string name='startup.field_name_placeholder'>Название приложения</string>\n\
    <string name='startup.field_exec'>Команда</string>\n\
    <string name='startup.field_exec_placeholder'>/usr/bin/app --flag</string>\n\
    <string name='startup.field_comment'>Комментарий</string>\n\
    <string name='startup.field_comment_placeholder'>Необязательное описание</string>\n\
    <string name='startup.field_terminal'>Запускать в терминале</string>\n\
    <string name='startup.save_btn'>Сохранить</string>\n\
    <string name='startup.confirm_remove_title'>Удалить запись автозагрузки</string>\n\
    <string name='startup.confirm_remove_desc'>Эта запись больше не будет запускаться автоматически</string>\n\
    <string name='startup.remove_btn'>Удалить</string>\n\
    <string name='tooltip.remove_startup'>Удалить из автозагрузки</string>\n\
    <string name='tooltip.toggle_startup'>Включить или выключить</string>\n\
    <string name='settings.title'>Настройки</string>\n\
    <string name='settings.subtitle'>Параметры приложения</string>\n\
    <string name='settings.appearance'>Внешний вид</string>\n\
    <string name='settings.theme'>Тема</string>\n\
    <string name='settings.theme_dark'>Тёмная</string>\n\
    <string name='settings.theme_light'>Светлая</string>\n\
    <string name='settings.theme_system'>Системная</string>\n\
    <string name='settings.language'>Язык</string>\n\
    <string name='settings.startup_section'>Запуск</string>\n\
    <string name='settings.autostart'>Запускать вместе с системой</string>\n\
    <string name='settings.start_minimized'>Запускать свёрнутым</string>\n\
    <string name='settings.start_in_tray'>Запускать в трее</string>\n\
    <string name='settings.cleanup_section'>Очистка</string>\n\
    <string name='settings.confirm_delete'>Подтверждать удаление</string>\n\
    <string name='settings.show_hidden'>Показывать скрытые файлы</string>\n\
    <string name='settings.include_downloads'>Включать папку загрузок</string>\n\
    <string name='settings.disks_section'>Диски</string>\n\
    <string name='settings.disks_desc'>Диски, отображаемые на панели</string>\n\
    <string name='settings.add_custom_mount'>Добавить точку монтирования</string>\n\
    <string name='settings.custom_mount_placeholder'>/mnt/data</string>\n\
    <string name='settings.notifications_section'>Уведомления</string>\n\
    <string name='settings.notify_scan'>Уведомлять о завершении сканирования</string>\n\
    <string name='settings.notify_cleanup'>Уведомлять о завершении очистки</string>\n\
    <string name='settings.updates_section'>Обновления</string>\n\
    <string name='settings.check_updates'>Проверить обновления</string>\n\
    <string name='settings.updates_latest'>У вас последняя версия</string>\n\
    <string name='settings.updates_checking'>Проверка...</string>\n\
    <string name='settings.about'>О программе</string>\n\
    <string name='settings.version_label'>Версия</string>\n\
    <string name='settings.open_logs'>Открыть журналы</string>\n\
    <string name='tooltip.open_app'>Открыть приложение</string>\n\
    <string name='tooltip.create_shortcut'>Создать ярлык на рабочем столе</string>\n\
    <string name='tooltip.uninstall_app'>Удалить приложение</string>\n\
    <string name='tooltip.open_folder'>Открыть папку</string>\n\
    <string name='cleanup.rule.thumbnails'>Миниатюры</string>\n\
    <string name='cleanup.rule.thumbnails.desc'>Кэш миниатюр изображений</string>\n\
    <string name='cleanup.rule.firefox'>Кэш Firefox</string>\n\
    <string name='cleanup.rule.firefox.desc'>Временные файлы браузера Firefox</string>\n\
    <string name='cleanup.rule.chrome'>Кэш Chrome</string>\n\
    <string name='cleanup.rule.chrome.desc'>Временные файлы Google Chrome</string>\n\
    <string name='cleanup.rule.chromium'>Кэш Chromium</string>\n\
    <string name='cleanup.rule.chromium.desc'>Временные файлы Chromium</string>\n\
    <string name='cleanup.rule.brave'>Кэш Brave</string>\n\
    <string name='cleanup.rule.brave.desc'>Временные файлы браузера Brave</string>\n\
    <string name='cleanup.rule.edge'>Кэш Edge</string>\n\
    <string name='cleanup.rule.edge.desc'>Временные файлы Microsoft Edge</string>\n\
    <string name='cleanup.rule.opera'>Кэш Opera</string>\n\
    <string name='cleanup.rule.opera.desc'>Временные файлы Opera</string>\n\
    <string name='cleanup.rule.vivaldi'>Кэш Vivaldi</string>\n\
    <string name='cleanup.rule.vivaldi.desc'>Временные файлы Vivaldi</string>\n\
    <string name='cleanup.rule.trash'>Корзина</string>\n\
    <string name='cleanup.rule.trash.desc'>Файлы, перемещённые в корзину</string>\n\
    <string name='cleanup.rule.discord'>Кэш Discord</string>\n\
    <string name='cleanup.rule.discord.desc'>Кэшированные медиафайлы Discord</string>\n\
    <string name='cleanup.rule.telegram'>Кэш Telegram</string>\n\
    <string name='cleanup.rule.telegram.desc'>Кэшированные медиафайлы Telegram Desktop</string>\n\
    <string name='cleanup.rule.spotify'>Кэш Spotify</string>\n\
    <string name='cleanup.rule.spotify.desc'>Кэшированные треки Spotify</string>\n\
    <string name='cleanup.rule.steam'>Кэш шейдеров Steam</string>\n\
    <string name='cleanup.rule.steam.desc'>Предкомпилированные шейдеры игр Steam</string>\n\
    <string name='cleanup.rule.yay'>Кэш yay</string>\n\
    <string name='cleanup.rule.yay.desc'>Загруженные пакеты AUR для yay</string>\n\
    <string name='cleanup.rule.paru'>Кэш paru</string>\n\
    <string name='cleanup.rule.paru.desc'>Загруженные пакеты AUR для paru</string>\n\
    <string name='cleanup.rule.flatpak'>Кэш Flatpak</string>\n\
    <string name='cleanup.rule.flatpak.desc'>Временные данные Flatpak</string>\n\
    <string name='cleanup.rule.cargo'>Кэш Cargo</string>\n\
    <string name='cleanup.rule.cargo.desc'>Кэш пакетов Cargo</string>\n\
    <string name='cleanup.rule.npm'>Кэш npm</string>\n\
    <string name='cleanup.rule.npm.desc'>Кэш пакетов npm</string>\n\
    <string name='cleanup.rule.pip'>Кэш pip</string>\n\
    <string name='cleanup.rule.pip.desc'>Кэш пакетов pip</string>\n\
    <string name='cleanup.rule.gobuild'>Кэш сборки Go</string>\n\
    <string name='cleanup.rule.gobuild.desc'>Артефакты сборки Go</string>\n\
    <string name='cleanup.rule.downloads'>Загрузки</string>\n\
    <string name='cleanup.rule.downloads.desc'>Файлы в папке загрузок</string>\n\
    <string name='cleanup.rule.vscode'>Кэш VS Code</string>\n\
    <string name='cleanup.rule.vscode.desc'>Временные файлы Visual Studio Code</string>\n\
    <string name='cleanup.rule.jetbrains'>Кэш JetBrains</string>\n\
    <string name='cleanup.rule.jetbrains.desc'>Кэши сред разработки JetBrains</string>\n\
    <string name='cleanup.rule.shaders'>Кэш шейдеров ГП</string>\n\
    <string name='cleanup.rule.shaders.desc'>Скомпилированные шейдеры Mesa</string>\n\
    <string name='cleanup.rule.coredumps'>Дампы сбоев</string>\n\
    <string name='cleanup.rule.coredumps.desc'>Дампы памяти, сохранённые systemd</string>\n\
    </resources>\n";

} // verus!
